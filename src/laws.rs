//! Laws of the log, stated and proved over region images: what `append`,
//! `entries`, `count` and `reset` do to the bytes of the region.
use vstd::prelude::*;
use crate::layout::{
    append_image, committed, count_of, entries_of, fits, lemma_le_round_trip, le_bytes, payload_of,
    record_bytes, reset_image, slot_of, slot_start, write_at, wf_image, HEADER_LEN, MAX_PAYLOAD,
    SLOT_LEN,
};

verus! {

proof fn lemma_write_at(img: Seq<u8>, off: int, bytes: Seq<u8>)
    requires
        0 <= off,
        off + bytes.len() <= img.len(),
    ensures
        write_at(img, off, bytes).len() == img.len(),
        forall|k: int|
            0 <= k < img.len() ==> #[trigger] write_at(img, off, bytes)[k] == if off <= k < off
                + bytes.len() {
                bytes[k - off]
            } else {
                img[k]
            },
{
}

/// Appending a payload that is not yet committed, when a slot is free,
/// commits it after the others and keeps the image well formed.
proof fn lemma_append_new(img: Seq<u8>, p: Seq<u8>)
    requires
        wf_image(img),
        p.len() <= MAX_PAYLOAD,
        !committed(img).contains(p),
        fits(img, count_of(img) + 1),
    ensures
        wf_image(append_image(img, p)),
        append_image(img, p).len() == img.len(),
        committed(append_image(img, p)) == committed(img).push(p),
{
    let n = count_of(img);
    let s = slot_start(n as int);
    let rec = record_bytes(p);
    let img1 = write_at(img, s, rec);
    assert(n + 1 <= u32::MAX);
    let hdr = le_bytes((n + 1) as u32);
    lemma_le_round_trip((n + 1) as u32);
    lemma_write_at(img, s, rec);
    lemma_write_at(img1, 0, hdr);
    let img2 = write_at(img1, 0, hdr);
    assert(img2 == append_image(img, p));
    assert(img2.subrange(0, HEADER_LEN as int) =~= hdr);
    assert(count_of(img2) == n + 1);
    assert forall|i: int| 0 <= i < n implies #[trigger] slot_of(img2, i) == slot_of(img, i) by {
        assert(slot_of(img2, i) =~= slot_of(img, i));
    }
    assert(slot_of(img2, n as int)[0] == p.len());
    assert(payload_of(slot_of(img2, n as int)) =~= p);
    assert(committed(img2) =~= committed(img).push(p));
}

/// Appending a payload leaves the image well formed; the entries gain the
/// payload in front exactly when it is new, short enough, and a slot is free.
pub proof fn lemma_append_entries(img: Seq<u8>, p: Seq<u8>)
    requires
        wf_image(img),
    ensures
        wf_image(append_image(img, p)),
        entries_of(append_image(img, p)) == if committed(img).contains(p) || p.len() > MAX_PAYLOAD
            || !fits(img, count_of(img) + 1) {
            entries_of(img)
        } else {
            seq![p] + entries_of(img)
        },
{
    if !(committed(img).contains(p) || p.len() > MAX_PAYLOAD || !fits(img, count_of(img) + 1)) {
        lemma_append_new(img, p);
        assert(committed(img).push(p).reverse() =~= seq![p] + committed(img).reverse());
    }
}

proof fn lemma_reset_empty(len: nat)
    requires
        HEADER_LEN <= len <= u32::MAX,
    ensures
        wf_image(reset_image(len)),
        count_of(reset_image(len)) == 0,
        committed(reset_image(len)) == Seq::<Seq<u8>>::empty(),
{
    let img = reset_image(len);
    assert(img.subrange(0, HEADER_LEN as int) =~= seq![0u8, 0u8, 0u8, 0u8]);
    assert(committed(img) =~= Seq::<Seq<u8>>::empty());
}

/// After a reset the log is empty: the count is zero and there are no
/// entries.
pub proof fn law_reset_is_empty(len: nat)
    requires
        HEADER_LEN <= len <= u32::MAX,
    ensures
        count_of(reset_image(len)) == 0,
        entries_of(reset_image(len)) == Seq::<Seq<u8>>::empty(),
{
    lemma_reset_empty(len);
    assert(entries_of(reset_image(len)) =~= Seq::<Seq<u8>>::empty());
}

/// Appending two distinct payloads to an empty log lists both, each once,
/// newest first.
pub proof fn law_two_appends_newest_first(len: nat, a: Seq<u8>, b: Seq<u8>)
    requires
        a != b,
        a.len() <= MAX_PAYLOAD,
        b.len() <= MAX_PAYLOAD,
        slot_start(2) <= len <= u32::MAX,
    ensures
        entries_of(append_image(append_image(reset_image(len), a), b)) == seq![b, a],
{
    let img0 = reset_image(len);
    lemma_reset_empty(len);
    lemma_append_entries(img0, a);
    let img1 = append_image(img0, a);
    assert(entries_of(img0) =~= Seq::<Seq<u8>>::empty());
    assert(entries_of(img1) =~= seq![a]);
    assert(committed(img1) =~= seq![a]) by {
        lemma_append_new(img0, a);
    }
    assert(!committed(img1).contains(b)) by {
        if committed(img1).contains(b) {
            assert(committed(img1)[0] == b);
        }
    }
    lemma_append_entries(img1, b);
    assert(entries_of(append_image(img1, b)) =~= seq![b, a]);
}

/// Appending never makes a payload committed twice.
pub proof fn law_append_keeps_distinct(img: Seq<u8>, p: Seq<u8>)
    requires
        wf_image(img),
        committed(img).no_duplicates(),
    ensures
        committed(append_image(img, p)).no_duplicates(),
{
    if !(committed(img).contains(p) || p.len() > MAX_PAYLOAD || !fits(img, count_of(img) + 1)) {
        lemma_append_new(img, p);
        let c = committed(img);
        let c2 = c.push(p);
        assert forall|i: int, j: int| 0 <= i < c2.len() && 0 <= j < c2.len() && i != j implies c2[i]
            != c2[j] by {
            if i < c.len() && j < c.len() {
            } else if i == c.len() {
                assert(c.contains(c2[j]));
            } else {
                assert(c.contains(c2[i]));
            }
        }
    }
}

/// Appending a payload a second time changes nothing.
pub proof fn law_append_idempotent(img: Seq<u8>, p: Seq<u8>)
    requires
        wf_image(img),
    ensures
        append_image(append_image(img, p), p) == append_image(img, p),
        count_of(append_image(append_image(img, p), p)) == count_of(append_image(img, p)),
{
    let n = count_of(img);
    if !(committed(img).contains(p) || p.len() > MAX_PAYLOAD || !fits(img, n + 1)) {
        lemma_append_new(img, p);
        let img1 = append_image(img, p);
        assert(committed(img1)[n as int] == p);
        assert(committed(img1).contains(p));
    }
}

/// Appending the same payload twice to an empty log leaves a count of one.
pub proof fn law_repeat_append_counts_once(len: nat, p: Seq<u8>)
    requires
        p.len() <= MAX_PAYLOAD,
        slot_start(1) <= len <= u32::MAX,
    ensures
        count_of(append_image(append_image(reset_image(len), p), p)) == 1,
{
    let img0 = reset_image(len);
    lemma_reset_empty(len);
    lemma_append_new(img0, p);
    law_append_idempotent(img0, p);
}

/// An empty payload is stored and read back as an empty entry.
pub proof fn law_empty_payload_round_trips(len: nat)
    requires
        slot_start(1) <= len <= u32::MAX,
    ensures
        entries_of(append_image(reset_image(len), Seq::<u8>::empty())) == seq![Seq::<u8>::empty()],
{
    let img0 = reset_image(len);
    lemma_reset_empty(len);
    lemma_append_entries(img0, Seq::<u8>::empty());
    assert(entries_of(img0) =~= Seq::<Seq<u8>>::empty());
    assert(seq![Seq::<u8>::empty()] + entries_of(img0) =~= seq![Seq::<u8>::empty()]);
}

/// A payload of the largest length is read back byte for byte; one byte more
/// and the append leaves the log as it was.
pub proof fn law_longest_payload(len: nat, p: Seq<u8>, q: Seq<u8>)
    requires
        p.len() == MAX_PAYLOAD,
        q.len() == MAX_PAYLOAD + 1,
        slot_start(1) <= len <= u32::MAX,
    ensures
        entries_of(append_image(reset_image(len), p)) == seq![p],
        append_image(reset_image(len), q) == reset_image(len),
{
    let img0 = reset_image(len);
    lemma_reset_empty(len);
    lemma_append_entries(img0, p);
    assert(entries_of(img0) =~= Seq::<Seq<u8>>::empty());
    assert(seq![p] + entries_of(img0) =~= seq![p]);
}

/// The image after appending each payload of `ps` in turn.
pub open spec fn append_all(img: Seq<u8>, ps: Seq<Seq<u8>>) -> Seq<u8>
    decreases ps.len(),
{
    if ps.len() == 0 {
        img
    } else {
        append_image(append_all(img, ps.drop_last()), ps.last())
    }
}

/// Whether `m` is the two sequences `xs` and `ys` merged, each keeping its
/// own order: what a mailbox delivers when two producers send at once.
pub open spec fn is_interleaving(m: Seq<Seq<u8>>, xs: Seq<Seq<u8>>, ys: Seq<Seq<u8>>) -> bool
    decreases m.len(),
{
    if m.len() == 0 {
        xs.len() == 0 && ys.len() == 0
    } else {
        ||| (xs.len() > 0 && m.last() == xs.last() && is_interleaving(
            m.drop_last(),
            xs.drop_last(),
            ys,
        ))
        ||| (ys.len() > 0 && m.last() == ys.last() && is_interleaving(
            m.drop_last(),
            xs,
            ys.drop_last(),
        ))
    }
}

proof fn lemma_append_all(len: nat, ps: Seq<Seq<u8>>)
    requires
        HEADER_LEN <= len <= u32::MAX,
        forall|i: int| 0 <= i < ps.len() ==> (#[trigger] ps[i]).len() <= MAX_PAYLOAD,
        slot_start(ps.to_set().len() as int) <= len,
    ensures
        wf_image(append_all(reset_image(len), ps)),
        append_all(reset_image(len), ps).len() == len,
        committed(append_all(reset_image(len), ps)).no_duplicates(),
        committed(append_all(reset_image(len), ps)).to_set() == ps.to_set(),
    decreases ps.len(),
{
    broadcast use vstd::seq_lib::group_seq_properties;
    broadcast use vstd::set::group_set_axioms;
    broadcast use vstd::seq_lib::seq_to_set_is_finite;

    if ps.len() == 0 {
        lemma_reset_empty(len);
        assert(ps.to_set() =~= Set::<Seq<u8>>::empty());
        assert(committed(reset_image(len)).to_set() =~= Set::<Seq<u8>>::empty());
    } else {
        let pre = ps.drop_last();
        let p = ps.last();
        assert(ps == pre.push(p));
        pre.lemma_push_to_set_commute(p);
        vstd::set_lib::lemma_len_subset(pre.to_set(), ps.to_set());
        lemma_append_all(len, pre);
        let prev = append_all(reset_image(len), pre);
        let c = committed(prev);
        c.unique_seq_to_set();
        if c.contains(p) {
            assert(c.to_set().contains(p));
            assert(ps.to_set() =~= pre.to_set());
        } else {
            assert(!pre.to_set().contains(p));
            assert(ps.to_set().len() == pre.to_set().len() + 1);
            assert(count_of(prev) == c.len());
            lemma_append_new(prev, p);
            c.lemma_push_to_set_commute(p);
            let c2 = c.push(p);
            assert(c2.no_duplicates()) by {
                assert forall|i: int, j: int| 0 <= i < c2.len() && 0 <= j < c2.len() && i != j
                    implies c2[i] != c2[j] by {
                    if i < c.len() && j < c.len() {
                    } else if i == c.len() {
                        assert(c.contains(c2[j]));
                    } else {
                        assert(c.contains(c2[i]));
                    }
                }
            }
        }
    }
}

proof fn lemma_interleaving_set(m: Seq<Seq<u8>>, xs: Seq<Seq<u8>>, ys: Seq<Seq<u8>>)
    requires
        is_interleaving(m, xs, ys),
    ensures
        m.to_set() == xs.to_set() + ys.to_set(),
    decreases m.len(),
{
    broadcast use vstd::seq_lib::group_seq_properties;
    broadcast use vstd::set::group_set_axioms;

    if m.len() == 0 {
        assert(m.to_set() =~= Set::<Seq<u8>>::empty());
        assert(xs.to_set() =~= Set::<Seq<u8>>::empty());
        assert(ys.to_set() =~= Set::<Seq<u8>>::empty());
        assert(m.to_set() =~= xs.to_set() + ys.to_set());
    } else {
        let mp = m.drop_last();
        assert(m == mp.push(m.last()));
        mp.lemma_push_to_set_commute(m.last());
        if xs.len() > 0 && m.last() == xs.last() && is_interleaving(mp, xs.drop_last(), ys) {
            lemma_interleaving_set(mp, xs.drop_last(), ys);
            assert(xs == xs.drop_last().push(xs.last()));
            xs.drop_last().lemma_push_to_set_commute(xs.last());
            assert(m.to_set() =~= xs.to_set() + ys.to_set());
        } else {
            lemma_interleaving_set(mp, xs, ys.drop_last());
            assert(ys == ys.drop_last().push(ys.last()));
            ys.drop_last().lemma_push_to_set_commute(ys.last());
            assert(m.to_set() =~= xs.to_set() + ys.to_set());
        }
    }
}

/// Two producers whose appends reach the single writer in any interleaving
/// leave a log that counts each distinct payload they sent exactly once,
/// with no payload stored twice.
pub proof fn law_interleaved_producers(
    len: nat,
    xs: Seq<Seq<u8>>,
    ys: Seq<Seq<u8>>,
    m: Seq<Seq<u8>>,
)
    requires
        is_interleaving(m, xs, ys),
        forall|i: int| 0 <= i < xs.len() ==> (#[trigger] xs[i]).len() <= MAX_PAYLOAD,
        forall|i: int| 0 <= i < ys.len() ==> (#[trigger] ys[i]).len() <= MAX_PAYLOAD,
        slot_start((xs.to_set() + ys.to_set()).len() as int) <= len <= u32::MAX,
    ensures
        count_of(append_all(reset_image(len), m)) == (xs.to_set() + ys.to_set()).len(),
        committed(append_all(reset_image(len), m)).no_duplicates(),
{
    broadcast use vstd::set::group_set_axioms;

    lemma_interleaving_set(m, xs, ys);
    assert forall|i: int| 0 <= i < m.len() implies (#[trigger] m[i]).len() <= MAX_PAYLOAD by {
        assert(m.to_set().contains(m[i]));
        if xs.to_set().contains(m[i]) {
            let j = choose|j: int| 0 <= j < xs.len() && xs[j] == m[i];
            assert(xs[j].len() <= MAX_PAYLOAD);
        } else {
            let j = choose|j: int| 0 <= j < ys.len() && ys[j] == m[i];
            assert(ys[j].len() <= MAX_PAYLOAD);
        }
    }
    lemma_append_all(len, m);
    committed(append_all(reset_image(len), m)).unique_seq_to_set();
}

} // verus!
