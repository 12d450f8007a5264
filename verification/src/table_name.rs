//! Names of the tables that hold collections.
//!
//! A collection id becomes a table name by putting `embeddings_` in front
//! and exchanging `-` and `_` throughout; the same exchange on what follows
//! the prefix gives the id back.

use vstd::prelude::*;
use crate::text::{chars_of, push_str_chars, string_from_chars};

verus! {

/// What every table of a collection starts with.
pub open spec fn table_prefix() -> Seq<char> {
    "embeddings_"@
}

/// `-` for `_`, `_` for `-`, every other character as it is.
pub open spec fn swap_separator(c: char) -> char {
    if c == '-' {
        '_'
    } else if c == '_' {
        '-'
    } else {
        c
    }
}

/// `text` with `-` and `_` exchanged.
pub open spec fn swap_separators(text: Seq<char>) -> Seq<char> {
    Seq::new(text.len(), |i: int| swap_separator(text[i]))
}

/// The table name of a collection id.
pub open spec fn table_name_of(model_id: Seq<char>) -> Seq<char> {
    table_prefix() + swap_separators(model_id)
}

/// The collection id of a table name; `None` where the name lacks the
/// prefix.
pub open spec fn model_id_of(table: Seq<char>) -> Option<Seq<char>> {
    if table_prefix().is_prefix_of(table) {
        Some(swap_separators(table.skip(table_prefix().len() as int)))
    } else {
        None
    }
}

/// Exchanging the separators twice changes nothing.
pub proof fn swap_is_involution(text: Seq<char>)
    ensures
        swap_separators(swap_separators(text)) == text,
{
}

/// The mapping from ids to table names can be undone: the id of the table
/// name of an id is that id.
pub proof fn table_name_round_trip(model_id: Seq<char>)
    ensures
        model_id_of(table_name_of(model_id)) == Some(model_id),
{
    swap_is_involution(model_id);
}

/// Different ids have different table names.
pub proof fn table_names_are_distinct(a: Seq<char>, b: Seq<char>)
    requires
        table_name_of(a) == table_name_of(b),
    ensures
        a == b,
{
    table_name_round_trip(a);
    table_name_round_trip(b);
}

/// Computes `swap_separators` on characters.
fn swap_chars(chars: &Vec<char>, from: usize) -> (out: Vec<char>)
    requires
        from <= chars.len(),
    ensures
        out@ == swap_separators(chars@.skip(from as int)),
{
    let mut out: Vec<char> = Vec::new();
    let mut i: usize = from;
    let ghost tail = chars@.skip(from as int);
    while i < chars.len()
        invariant
            from <= i <= chars.len(),
            tail == chars@.skip(from as int),
            out@ == swap_separators(tail).take(i - from),
        decreases chars.len() - i,
    {
        let c = chars[i];
        let swapped = if c == '-' {
            '_'
        } else if c == '_' {
            '-'
        } else {
            c
        };
        out.push(swapped);
        i += 1;
    }
    out
}

/// The name of the table that holds collection `model_id`.
pub fn table_name(model_id: &str) -> (name: String)
    ensures
        name@ == table_name_of(model_id@),
{
    let mut out: Vec<char> = Vec::new();
    push_str_chars(&mut out, "embeddings_");
    let id = chars_of(model_id);
    let swapped = swap_chars(&id, 0);
    let mut i: usize = 0;
    while i < swapped.len()
        invariant
            i <= swapped.len(),
            out@ == table_prefix() + swapped@.take(i as int),
        decreases swapped.len() - i,
    {
        out.push(swapped[i]);
        i += 1;
    }
    string_from_chars(&out)
}

/// The collection that a table holds, if the table is one of a collection.
pub fn model_id_of_table(table: &str) -> (id: Option<String>)
    ensures
        match id {
            Some(s) => model_id_of(table@) == Some(s@),
            None => model_id_of(table@) is None,
        },
{
    let name = chars_of(table);
    let prefix = chars_of("embeddings_");
    if name.len() < prefix.len() {
        return None;
    }
    let mut i: usize = 0;
    while i < prefix.len()
        invariant
            i <= prefix.len() <= name.len(),
            prefix@ == table_prefix(),
            name@ == table@,
            name@.take(i as int) == prefix@.take(i as int),
        decreases prefix.len() - i,
    {
        if name[i] != prefix[i] {
            assert(!prefix@.is_prefix_of(name@));
            return None;
        }
        i += 1;
    }
    let swapped = swap_chars(&name, prefix.len());
    Some(string_from_chars(&swapped))
}

} // verus!
