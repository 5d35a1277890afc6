//! Soft-deleted records and what a purge does to them.
//!
//! The store compares `deleted_at` with the cutoff as text, byte by byte on
//! the UTF-8 encoding. This module states that comparison, the records a purge
//! removes and keeps, and runs a purge over records held in memory.

use vstd::prelude::*;
use vstd::utf8::encode_utf8;
use crate::cutoff::{cutoff_spec, representable, utc_timestamp_text};
use crate::task::{PurgeAction, PurgeError, PurgeTask, StoreReply};

verus! {

/// A stored record as the purge sees it: `deleted_at` is unset while the
/// record is live, and holds the instant of its soft deletion otherwise.
#[derive(Debug, PartialEq, Eq)]
pub struct Record {
    pub id: String,
    pub deleted_at: Option<String>,
}

/// Byte order of texts: `a` sorts strictly before `b`.
pub open spec fn bytes_before(a: Seq<u8>, b: Seq<u8>) -> bool
    decreases a.len(),
{
    if b.len() == 0 {
        false
    } else if a.len() == 0 {
        true
    } else if a[0] != b[0] {
        a[0] < b[0]
    } else {
        bytes_before(a.drop_first(), b.drop_first())
    }
}

/// The bytes the store holds for a text.
pub open spec fn text_bytes(s: Seq<char>) -> Seq<u8> {
    encode_utf8(s)
}

/// A record that a purge with this cutoff removes: soft-deleted, at an
/// instant whose text sorts before the cutoff.
pub open spec fn purgeable(r: Record, cutoff: Seq<u8>) -> bool {
    match r.deleted_at {
        Some(t) => bytes_before(text_bytes(t@), cutoff),
        None => false,
    }
}

/// The records a purge with this cutoff leaves, in their order.
pub open spec fn kept(rows: Seq<Record>, cutoff: Seq<u8>) -> Seq<Record> {
    rows.filter(|r: Record| !purgeable(r, cutoff))
}

/// The records a purge with this cutoff removes, in their order.
pub open spec fn removed(rows: Seq<Record>, cutoff: Seq<u8>) -> Seq<Record> {
    rows.filter(|r: Record| purgeable(r, cutoff))
}

/// Whether `a` sorts strictly before `b`, byte by byte.
pub fn text_before(a: &str, b: &str) -> (r: bool)
    ensures
        r == bytes_before(text_bytes(a@), text_bytes(b@)),
{
    let x = a.as_bytes();
    let y = b.as_bytes();
    proof {
        assert(x@.skip(0) =~= x@);
        assert(y@.skip(0) =~= y@);
    }
    let mut i: usize = 0;
    while i < x.len() && i < y.len()
        invariant
            i <= x@.len(),
            i <= y@.len(),
            bytes_before(text_bytes(a@), text_bytes(b@)) == bytes_before(
                x@.skip(i as int),
                y@.skip(i as int),
            ),
        decreases x.len() - i,
    {
        if x[i] != y[i] {
            return x[i] < y[i];
        }
        proof {
            assert(x@.skip(i as int).drop_first() =~= x@.skip(i + 1));
            assert(y@.skip(i as int).drop_first() =~= y@.skip(i + 1));
        }
        i = i + 1;
    }
    i < y.len()
}

/// Whether a purge with this cutoff removes the record.
pub fn is_purgeable(record: &Record, cutoff: &str) -> (r: bool)
    ensures
        r == purgeable(*record, text_bytes(cutoff@)),
{
    match &record.deleted_at {
        Some(t) => text_before(t.as_str(), cutoff),
        None => false,
    }
}

/// One record more at the end: it joins the kept or the removed records.
proof fn lemma_split_last(s: Seq<Record>, c: Seq<u8>)
    requires
        s.len() > 0,
    ensures
        kept(s, c) == (if purgeable(s.last(), c) {
            kept(s.drop_last(), c)
        } else {
            kept(s.drop_last(), c).push(s.last())
        }),
        removed(s, c) == (if purgeable(s.last(), c) {
            removed(s.drop_last(), c).push(s.last())
        } else {
            removed(s.drop_last(), c)
        }),
{
    reveal(Seq::filter);
}

/// Where no record is purgeable, a purge removes none and keeps all.
proof fn lemma_none_purgeable(s: Seq<Record>, c: Seq<u8>)
    requires
        forall|i: int| 0 <= i < s.len() ==> !purgeable(#[trigger] s[i], c),
    ensures
        removed(s, c).len() == 0,
        kept(s, c) == s,
    decreases s.len(),
{
    if s.len() == 0 {
        reveal(Seq::filter);
    } else {
        let p = s.drop_last();
        assert forall|i: int| 0 <= i < p.len() implies !purgeable(#[trigger] p[i], c) by {
            assert(p[i] == s[i]);
        }
        lemma_none_purgeable(p, c);
        lemma_split_last(s, c);
        assert(s.last() == s[s.len() - 1]);
        assert(p.push(s.last()) =~= s);
    }
}

/// Byte order is transitive.
pub proof fn lemma_bytes_before_transitive(a: Seq<u8>, b: Seq<u8>, c: Seq<u8>)
    requires
        bytes_before(a, b),
        bytes_before(b, c),
    ensures
        bytes_before(a, c),
    decreases a.len(),
{
    if a.len() > 0 && b.len() > 0 && c.len() > 0 && a[0] == b[0] && b[0] == c[0] {
        lemma_bytes_before_transitive(a.drop_first(), b.drop_first(), c.drop_first());
    }
}

/// Counts the records that a purge with this cutoff removes.
pub fn count_purgeable(records: &Vec<Record>, cutoff: &str) -> (r: u32)
    requires
        records@.len() <= u32::MAX,
    ensures
        r == removed(records@, text_bytes(cutoff@)).len(),
{
    let ghost c = text_bytes(cutoff@);
    let mut n: u32 = 0;
    let mut i: usize = 0;
    while i < records.len()
        invariant
            i <= records@.len() <= u32::MAX,
            c == text_bytes(cutoff@),
            n == removed(records@.take(i as int), c).len(),
            n <= i,
        decreases records.len() - i,
    {
        let hit = is_purgeable(&records[i], cutoff);
        proof {
            let s = records@.take(i + 1);
            assert(s.drop_last() =~= records@.take(i as int));
            lemma_split_last(s, c);
        }
        if hit {
            n = n + 1;
        }
        i = i + 1;
    }
    proof {
        assert(records@.take(i as int) =~= records@);
    }
    n
}

/// Removes the records that a purge with this cutoff removes, keeping the
/// others in their order.
pub fn delete_purgeable(records: &mut Vec<Record>, cutoff: &str)
    ensures
        final(records)@ == kept(old(records)@, text_bytes(cutoff@)),
{
    let ghost c = text_bytes(cutoff@);
    let ghost orig = records@;
    let ghost mut j: int = 0;
    let mut i: usize = 0;
    proof {
        reveal(Seq::filter);
        assert(orig.skip(0) =~= orig);
        assert(kept(orig.take(0), c) + orig.skip(0) =~= orig);
    }
    while i < records.len()
        invariant
            c == text_bytes(cutoff@),
            orig == old(records)@,
            0 <= j <= orig.len(),
            i == kept(orig.take(j), c).len(),
            records@ == kept(orig.take(j), c) + orig.skip(j),
        decreases records.len() - i,
    {
        let ghost before = records@;
        proof {
            assert(records@[i as int] == orig[j]);
            let s = orig.take(j + 1);
            assert(s.drop_last() =~= orig.take(j));
            assert(s.last() == orig[j]);
            lemma_split_last(s, c);
        }
        if is_purgeable(&records[i], cutoff) {
            records.remove(i);
            proof {
                assert(records@ =~= kept(orig.take(j + 1), c) + orig.skip(j + 1));
            }
        } else {
            proof {
                assert(records@ =~= kept(orig.take(j + 1), c) + orig.skip(j + 1));
            }
            i = i + 1;
        }
        proof {
            j = j + 1;
        }
    }
    proof {
        assert(orig.skip(j).len() == 0);
        assert(orig.take(j) =~= orig);
        assert(records@ =~= kept(orig, c));
    }
}

/// The bytes of the cutoff that a purge keeping records `purge_days` days
/// compares with at the instant `now_ms`.
pub open spec fn cutoff_bytes(now_ms: i64, purge_days: i64) -> Seq<u8> {
    text_bytes(utc_timestamp_text(cutoff_spec(now_ms as int, purge_days as int)))
}

/// Runs a purge that keeps records for `purge_days` days, at the instant
/// `now_ms`, over records held in memory: the store requests of the run are
/// served by `count_purgeable` and `delete_purgeable`. A period of zero days
/// or less leaves the records alone and reports 0. Otherwise the records
/// soft-deleted before the cutoff are removed and their number reported.
pub fn purge_records(records: &mut Vec<Record>, purge_days: i64, now_ms: i64) -> (r: Result<
    u32,
    PurgeError,
>)
    requires
        old(records)@.len() <= u32::MAX,
    ensures
        purge_days <= 0 ==> r == Ok::<u32, PurgeError>(0) && final(records)@ == old(records)@,
        purge_days > 0 && representable(cutoff_spec(now_ms as int, purge_days as int)) ==> {
            &&& r == Ok::<u32, PurgeError>(
                removed(old(records)@, cutoff_bytes(now_ms, purge_days)).len() as u32,
            )
            &&& final(records)@ == kept(old(records)@, cutoff_bytes(now_ms, purge_days))
        },
        purge_days > 0 && !representable(cutoff_spec(now_ms as int, purge_days as int)) ==> {
            &&& r == Err::<u32, PurgeError>(PurgeError::CutoffOutOfRange)
            &&& final(records)@ == old(records)@
        },
{
    let (mut task, first) = PurgeTask::new(purge_days, now_ms);
    match first {
        PurgeAction::Count(cutoff) => {
            let n = count_purgeable(records, cutoff.as_str());
            match task.step(StoreReply::Counted(Some(n))) {
                PurgeAction::Delete(target) => {
                    delete_purgeable(records, target.as_str());
                    match task.step(StoreReply::Deleted) {
                        PurgeAction::Finish(m) => Ok(m),
                        PurgeAction::Fail(e) => Err(e),
                        _ => Err(PurgeError::UnexpectedReply),
                    }
                },
                PurgeAction::Finish(m) => {
                    proof {
                        let c = text_bytes(cutoff@);
                        assert forall|i: int|
                            0 <= i < records@.len() implies !purgeable(
                                #[trigger] records@[i],
                                c,
                            ) by {
                            if purgeable(records@[i], c) {
                                records@.lemma_filter_contains(
                                    |r: Record| purgeable(r, c),
                                    i,
                                );
                            }
                        }
                        lemma_none_purgeable(records@, c);
                    }
                    Ok(m)
                },
                PurgeAction::Fail(e) => Err(e),
                PurgeAction::Count(_) => Err(PurgeError::UnexpectedReply),
            }
        },
        PurgeAction::Finish(m) => Ok(m),
        PurgeAction::Fail(e) => Err(e),
        PurgeAction::Delete(_) => Err(PurgeError::UnexpectedReply),
    }
}

/// A purge never removes a live record, nor one soft-deleted at an instant
/// whose text does not sort before the cutoff; and every record it removes
/// is soft-deleted before the cutoff.
pub proof fn lemma_purge_spares_unexpired(rows: Seq<Record>, cutoff: Seq<u8>)
    ensures
        forall|i: int|
            0 <= i < rows.len() && (rows[i].deleted_at is None || !bytes_before(
                text_bytes(rows[i].deleted_at->0@),
                cutoff,
            )) ==> kept(rows, cutoff).contains(#[trigger] rows[i]),
        forall|k: int|
            0 <= k < removed(rows, cutoff).len() ==> {
                &&& (#[trigger] removed(rows, cutoff)[k]).deleted_at is Some
                &&& bytes_before(text_bytes(removed(rows, cutoff)[k].deleted_at->0@), cutoff)
            },
{
    assert forall|i: int|
        0 <= i < rows.len() && (rows[i].deleted_at is None || !bytes_before(
            text_bytes(rows[i].deleted_at->0@),
            cutoff,
        )) implies kept(rows, cutoff).contains(#[trigger] rows[i]) by {
        rows.lemma_filter_contains(|r: Record| !purgeable(r, cutoff), i);
    }
    assert forall|k: int| 0 <= k < removed(rows, cutoff).len() implies {
        &&& (#[trigger] removed(rows, cutoff)[k]).deleted_at is Some
        &&& bytes_before(text_bytes(removed(rows, cutoff)[k].deleted_at->0@), cutoff)
    } by {
        rows.lemma_filter_pred(|r: Record| purgeable(r, cutoff), k);
    }
}

/// Purging again, with the same cutoff or one that sorts before it and no
/// record soft-deleted in between, removes nothing and reports 0.
pub proof fn lemma_purge_again_removes_nothing(rows: Seq<Record>, first: Seq<u8>, second: Seq<u8>)
    requires
        second == first || bytes_before(second, first),
    ensures
        removed(kept(rows, first), second).len() == 0,
        kept(kept(rows, first), second) == kept(rows, first),
{
    let left = kept(rows, first);
    assert forall|i: int| 0 <= i < left.len() implies !purgeable(#[trigger] left[i], second) by {
        rows.lemma_filter_pred(|r: Record| !purgeable(r, first), i);
        if purgeable(left[i], second) && second != first {
            lemma_bytes_before_transitive(
                text_bytes(left[i].deleted_at->0@),
                second,
                first,
            );
        }
    }
    lemma_none_purgeable(left, second);
}

} // verus!
