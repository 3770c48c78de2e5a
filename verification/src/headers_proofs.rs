//! Why a header collection that was written as tokens reads back as itself.

use vstd::prelude::*;
use crate::error::ErrorView;
use crate::grammar::{is_lowercase, lemma_lowercase_fixed};
use crate::headers::{
    all_settled, appended, checked, entries_tokens, entry_tokens, gathered, is_canonical,
    is_header_name, is_header_value, is_settled, lists, no_fields, read, scan, spelled,
    value_tokens, writes, written, Entry, Field, Fields, Place,
};
use crate::token::TokenView;

verus! {

/// `name` paired with each of `values`, in order.
pub open spec fn pairs_for(name: Seq<char>, values: Seq<Seq<u8>>) -> Seq<Field> {
    values.map_values(|v: Seq<u8>| (name, v))
}

/// The fields of `entries`: those of the first entry, then those of the
/// second, and so on.
pub open spec fn flat(entries: Seq<Entry>) -> Seq<Field>
    decreases entries.len(),
{
    if entries.len() == 0 {
        Seq::empty()
    } else {
        flat(entries.drop_last()) + pairs_for(entries.last().0, entries.last().1)
    }
}

/// Whether the parsers accept the name of `entry`, which has no capital
/// letter, and each of its values.
pub open spec fn entry_settled(entry: Entry) -> bool {
    &&& is_header_name(entry.0)
    &&& is_lowercase(entry.0)
    &&& forall|k: int| 0 <= k < entry.1.len() ==> is_header_value(#[trigger] entry.1[k])
}

/// A reader inside a sequence that holds `values` as raw bytes from `at` on
/// finds them all before it comes to what follows them.
proof fn lemma_scan_values(
    tokens: Seq<TokenView>,
    at: int,
    entry: Entry,
    k: int,
    found: Seq<Field>,
)
    requires
        0 <= at,
        at + entry.1.len() < tokens.len(),
        forall|j: int| 0 <= j < entry.1.len() ==> tokens[at + j] == TokenView::Bytes(entry.1[j]),
        entry_settled(entry),
        0 <= k <= entry.1.len(),
    ensures
        scan(tokens, at + k, Place::Element(entry.0), found + pairs_for(entry.0, entry.1.take(k)))
            == scan(
            tokens,
            at + entry.1.len(),
            Place::Element(entry.0),
            found + pairs_for(entry.0, entry.1),
        ),
    decreases entry.1.len() - k,
{
    let name = entry.0;
    let values = entry.1;
    if k == values.len() {
        assert(values.take(k) =~= values);
    } else {
        let so_far = found + pairs_for(name, values.take(k));
        lemma_lowercase_fixed(name);
        assert(so_far.push((name, values[k])) =~= found + pairs_for(name, values.take(k + 1)));
        lemma_scan_values(tokens, at, entry, k + 1, found);
    }
}

/// A reader before an entry that `tokens` hold from `at` on finds its
/// fields and then stands before what follows the entry.
proof fn lemma_scan_entry(tokens: Seq<TokenView>, at: int, entry: Entry, found: Seq<Field>)
    requires
        0 <= at,
        at + entry_tokens(entry.0, entry.1).len() <= tokens.len(),
        tokens.subrange(at, at + entry_tokens(entry.0, entry.1).len()) == entry_tokens(
            entry.0,
            entry.1,
        ),
        entry_settled(entry),
    ensures
        entry_tokens(entry.0, entry.1).len() == entry.1.len() + 3,
        scan(tokens, at, Place::Name, found) == scan(
            tokens,
            at + entry.1.len() + 3,
            Place::Name,
            found + pairs_for(entry.0, entry.1),
        ),
{
    let name = entry.0;
    let values = entry.1;
    let part = entry_tokens(name, values);
    assert forall|j: int| 0 <= j < part.len() implies tokens[at + j] == part[j] by {
        assert(tokens.subrange(at, at + part.len())[j] == tokens[at + j]);
    }
    assert(part[0] == TokenView::Str(name));
    assert(part[1] is SeqStart);
    assert(part[values.len() as int + 2] == TokenView::SeqEnd);
    assert forall|j: int| 0 <= j < values.len() implies tokens[at + 2 + j] == TokenView::Bytes(
        values[j],
    ) by {
        assert(part[2 + j] == value_tokens(values)[j]);
    }
    assert(scan(tokens, at + 1, Place::Value(name), found) == scan(
        tokens,
        at + 2,
        Place::Element(name),
        found,
    ));
    lemma_scan_values(tokens, at + 2, entry, 0, found);
}

/// A reader before entries that `tokens` hold from `at` on finds their
/// fields in order and then stands before what follows them.
proof fn lemma_scan_entries(
    tokens: Seq<TokenView>,
    at: int,
    entries: Seq<Entry>,
    found: Seq<Field>,
)
    requires
        0 <= at,
        at + entries_tokens(entries).len() <= tokens.len(),
        tokens.subrange(at, at + entries_tokens(entries).len()) == entries_tokens(entries),
        forall|i: int| 0 <= i < entries.len() ==> entry_settled(#[trigger] entries[i]),
    ensures
        scan(tokens, at, Place::Name, found) == scan(
            tokens,
            at + entries_tokens(entries).len(),
            Place::Name,
            found + flat(entries),
        ),
    decreases entries.len(),
{
    if entries.len() > 0 {
        let init = entries.drop_last();
        let last = entries.last();
        let whole = entries_tokens(entries);
        let first = entries_tokens(init);
        let part = entry_tokens(last.0, last.1);
        assert(tokens.subrange(at, at + first.len()) =~= whole.subrange(0, first.len() as int));
        assert(whole.subrange(0, first.len() as int) =~= first);
        assert forall|i: int| 0 <= i < init.len() implies entry_settled(#[trigger] init[i]) by {
            assert(init[i] == entries[i]);
        }
        lemma_scan_entries(tokens, at, init, found);
        let mid = at + first.len();
        assert(tokens.subrange(mid, mid + part.len()) =~= whole.subrange(
            first.len() as int,
            whole.len() as int,
        ));
        assert(whole.subrange(first.len() as int, whole.len() as int) =~= part);
        lemma_scan_entry(tokens, mid, last, found + flat(init));
        assert((found + flat(init)) + pairs_for(last.0, last.1) =~= found + flat(entries));
    }
}

/// Entries that the parsers accept, written as a map, spell out their
/// fields in order.
pub proof fn lemma_spelled_written(entries: Seq<Entry>)
    requires
        forall|i: int| 0 <= i < entries.len() ==> entry_settled(#[trigger] entries[i]),
    ensures
        spelled(written(entries)) == Ok::<Seq<Field>, ErrorView>(flat(entries)),
{
    let tokens = written(entries);
    let body = entries_tokens(entries);
    assert(tokens.subrange(1, 1 + body.len() as int) =~= body);
    lemma_scan_entries(tokens, 1, entries, Seq::empty());
}

/// Giving one more field adds it behind those given before.
proof fn lemma_gathered_push(pairs: Seq<Field>, field: Field)
    ensures
        gathered(pairs.push(field)) == appended(gathered(pairs), field.0, field.1),
{
    assert(pairs.push(field).drop_last() =~= pairs);
}

/// Giving the first `k` values of a name that had none yet leaves the name
/// with exactly those values, and the other names as they were.
proof fn lemma_gathered_values(pairs: Seq<Field>, name: Seq<char>, values: Seq<Seq<u8>>, k: int)
    requires
        !gathered(pairs).dom().contains(name),
        0 <= k <= values.len(),
    ensures
        gathered(pairs + pairs_for(name, values.take(k))) == if k == 0 {
            gathered(pairs)
        } else {
            gathered(pairs).insert(name, values.take(k))
        },
    decreases k,
{
    if k > 0 {
        lemma_gathered_values(pairs, name, values, k - 1);
        let before = pairs + pairs_for(name, values.take(k - 1));
        assert(before.push((name, values[k - 1])) =~= pairs + pairs_for(name, values.take(k)));
        lemma_gathered_push(before, (name, values[k - 1]));
        if k == 1 {
            assert(values.take(1) =~= seq![values[0]]);
        } else {
            assert(values.take(k - 1).push(values[k - 1]) =~= values.take(k));
        }
    }
}

/// Giving the fields of the first `k` of `entries`, whose names differ
/// and which each have a value, leaves exactly those names, each with the
/// values of its entry.
proof fn lemma_gathered_flat(entries: Seq<Entry>, k: int)
    requires
        forall|i: int, j: int|
            0 <= i < j < entries.len() ==> (#[trigger] entries[i]).0 != (#[trigger] entries[j]).0,
        forall|i: int| 0 <= i < entries.len() ==> (#[trigger] entries[i]).1.len() > 0,
        0 <= k <= entries.len(),
    ensures
        forall|name: Seq<char>| #[trigger]
            gathered(flat(entries.take(k))).dom().contains(name) <==> exists|i: int|
                0 <= i < k && (#[trigger] entries[i]).0 == name,
        forall|i: int|
            0 <= i < k ==> gathered(flat(entries.take(k)))[(#[trigger] entries[i]).0]
                == entries[i].1,
    decreases k,
{
    if k > 0 {
        lemma_gathered_flat(entries, k - 1);
        let init = entries.take(k - 1);
        let last = entries[k - 1];
        assert(entries.take(k).drop_last() =~= init);
        let before = gathered(flat(init));
        assert(!before.dom().contains(last.0)) by {
            if before.dom().contains(last.0) {
                let i = choose|i: int| 0 <= i < k - 1 && (#[trigger] entries[i]).0 == last.0;
                assert(entries[i].0 != entries[k - 1].0);
            }
        }
        lemma_gathered_values(flat(init), last.0, last.1, last.1.len() as int);
        assert(last.1.take(last.1.len() as int) =~= last.1);
        let after = gathered(flat(entries.take(k)));
        assert forall|name: Seq<char>| #[trigger] after.dom().contains(name) <==> exists|i: int|
            0 <= i < k && (#[trigger] entries[i]).0 == name by {
            if after.dom().contains(name) && name != last.0 {
                let i = choose|i: int| 0 <= i < k - 1 && (#[trigger] entries[i]).0 == name;
                assert(0 <= i < k && entries[i].0 == name);
            }
            if exists|i: int| 0 <= i < k && (#[trigger] entries[i]).0 == name {
                let i = choose|i: int| 0 <= i < k && (#[trigger] entries[i]).0 == name;
                assert(i < k - 1 ==> before.dom().contains(name));
            }
        }
        assert forall|i: int| 0 <= i < k implies after[(#[trigger] entries[i]).0]
            == entries[i].1 by {
            assert(i < k - 1 ==> entries[i].0 != entries[k - 1].0);
        }
    }
}

/// Entries that list canonical fields are accepted by the parsers.
proof fn lemma_listed_settled(entries: Seq<Entry>, fields: Fields)
    requires
        is_canonical(fields),
        lists(entries, fields),
    ensures
        forall|i: int| 0 <= i < entries.len() ==> entry_settled(#[trigger] entries[i]),
        forall|i: int| 0 <= i < entries.len() ==> (#[trigger] entries[i]).1.len() > 0,
{
    assert forall|i: int| 0 <= i < entries.len() implies entry_settled(#[trigger] entries[i])
        && entries[i].1.len() > 0 by {
        assert(fields.dom().contains(entries[i].0));
    }
}

/// Reading what was written gives the collection back: canonical fields,
/// written as a map with the entries in any order, read as those fields.
pub proof fn lemma_headers_round_trip(fields: Fields, tokens: Seq<TokenView>)
    requires
        is_canonical(fields),
        writes(fields, tokens),
    ensures
        read(tokens) == Ok::<Fields, ErrorView>(fields),
{
    let entries = choose|entries: Seq<Entry>|
        lists(entries, fields) && tokens == #[trigger] written(entries);
    lemma_listed_settled(entries, fields);
    lemma_spelled_written(entries);
    lemma_gathered_flat(entries, entries.len() as int);
    assert(entries.take(entries.len() as int) =~= entries);
    let back = gathered(flat(entries));
    assert forall|name: Seq<char>| back.dom().contains(name) <==> fields.dom().contains(name) by {
        if fields.dom().contains(name) {
            let i = choose|i: int| 0 <= i < entries.len() && (#[trigger] entries[i]).0 == name;
            assert(entries[i].0 == name);
        }
        if back.dom().contains(name) {
            let i = choose|i: int| 0 <= i < entries.len() && (#[trigger] entries[i]).0 == name;
            assert(fields.dom().contains(entries[i].0));
        }
    }
    assert forall|name: Seq<char>| back.dom().contains(name) implies back[name] == fields[name] by {
        let i = choose|i: int| 0 <= i < entries.len() && (#[trigger] entries[i]).0 == name;
        assert(back[entries[i].0] == entries[i].1);
        assert(fields[entries[i].0] == entries[i].1);
    }
    assert(back =~= fields);
}

/// A lone unit token reads as a collection without fields.
pub proof fn lemma_unit_read()
    ensures
        read(seq![TokenView::Unit]) == Ok::<Fields, ErrorView>(no_fields()),
{
}

/// A collection without fields is written as a map of no entry.
pub proof fn lemma_empty_written(tokens: Seq<TokenView>)
    requires
        writes(no_fields(), tokens),
    ensures
        tokens == seq![(TokenView::MapStart { len: Some(0usize) }), TokenView::MapEnd],
{
    let entries = choose|entries: Seq<Entry>|
        lists(entries, no_fields()) && tokens == #[trigger] written(entries);
    if entries.len() > 0 {
        assert(no_fields().dom().contains(entries[0].0));
    }
    assert(tokens =~= seq![TokenView::MapStart { len: Some(0usize) }, TokenView::MapEnd]);
}

/// Giving fields that are as the collection holds them leaves canonical
/// fields.
pub proof fn lemma_gathered_canonical(pairs: Seq<Field>)
    requires
        all_settled(pairs),
    ensures
        is_canonical(gathered(pairs)),
    decreases pairs.len(),
{
    if pairs.len() > 0 {
        let init = pairs.drop_last();
        let last = pairs.last();
        assert forall|i: int| 0 <= i < init.len() implies is_settled(#[trigger] init[i]) by {
            assert(init[i] == pairs[i]);
        }
        lemma_gathered_canonical(init);
        let before = gathered(init);
        let after = gathered(pairs);
        assert forall|name: Seq<char>| #[trigger] after.dom().contains(name) implies {
            &&& is_header_name(name)
            &&& is_lowercase(name)
            &&& after[name].len() > 0
            &&& forall|k: int| 0 <= k < after[name].len() ==> is_header_value(#[trigger] after[name][k])
        } by {
            assert(is_settled(last));
            if name == last.0 && before.dom().contains(name) {
                assert forall|k: int| 0 <= k < after[name].len() implies is_header_value(
                    #[trigger] after[name][k],
                ) by {
                    assert(k < before[name].len() ==> after[name][k] == before[name][k]);
                }
            }
        }
    }
}

/// A reader that has found only fields as the collection holds them finds
/// only such fields.
proof fn lemma_scan_settled(tokens: Seq<TokenView>, at: int, place: Place, found: Seq<Field>)
    requires
        all_settled(found),
    ensures
        scan(tokens, at, place, found) matches Ok(pairs) ==> all_settled(pairs),
    decreases tokens.len() - at,
{
    if 0 <= at < tokens.len() {
        match place {
            Place::Name => match tokens[at] {
                TokenView::Str(name) => {
                    lemma_scan_settled(tokens, at + 1, Place::Value(name), found);
                },
                _ => {},
            },
            Place::Value(name) => match tokens[at] {
                TokenView::SeqStart { .. } => {
                    lemma_scan_settled(tokens, at + 1, Place::Element(name), found);
                },
                token => match crate::headers::byte_string(token) {
                    Some(value) => match checked(name, value) {
                        Ok(field) => {
                            crate::grammar::lemma_lowercase(name);
                            lemma_scan_settled(tokens, at + 1, Place::Name, found.push(field));
                        },
                        Err(_) => {},
                    },
                    None => {},
                },
            },
            Place::Element(name) => match tokens[at] {
                TokenView::SeqEnd => {
                    lemma_scan_settled(tokens, at + 1, Place::Name, found);
                },
                token => match crate::headers::byte_string(token) {
                    Some(value) => match checked(name, value) {
                        Ok(field) => {
                            crate::grammar::lemma_lowercase(name);
                            lemma_scan_settled(tokens, at + 1, Place::Element(name), found.push(field));
                        },
                        Err(_) => {},
                    },
                    None => {},
                },
            },
        }
    }
}

/// What is read is canonical: a collection that was read from tokens reads
/// back as itself however it is written.
pub proof fn lemma_read_canonical(tokens: Seq<TokenView>)
    ensures
        read(tokens) matches Ok(fields) ==> is_canonical(fields),
{
    if tokens.len() > 0 {
        lemma_scan_settled(tokens, 1, Place::Name, Seq::empty());
    }
    if let Ok(pairs) = spelled(tokens) {
        lemma_gathered_canonical(pairs);
    }
}

/// The names of fields given so far are finitely many, and are among the
/// names once all fields are given.
pub proof fn lemma_gathered_names(pairs: Seq<Field>, k: int)
    requires
        0 <= k <= pairs.len(),
    ensures
        gathered(pairs).dom().finite(),
        gathered(pairs.take(k)).dom().finite(),
        gathered(pairs.take(k)).dom().subset_of(gathered(pairs).dom()),
        gathered(pairs.take(k)).dom().len() <= gathered(pairs).dom().len(),
    decreases pairs.len(),
{
    if k == pairs.len() {
        assert(pairs.take(k) =~= pairs);
        if pairs.len() > 0 {
            lemma_gathered_names(pairs.drop_last(), k - 1);
        }
    } else {
        let init = pairs.drop_last();
        lemma_gathered_names(init, k);
        assert(init.take(k) =~= pairs.take(k));
    }
    vstd::set_lib::lemma_len_subset(gathered(pairs.take(k)).dom(), gathered(pairs).dom());
}

} // verus!
