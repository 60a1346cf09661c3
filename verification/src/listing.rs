//! The order in which a directory listing is shown: directories before
//! files, each group by lower-cased name, and entries of equal rank in the
//! order in which they were found.

use vstd::prelude::*;
use vstd::string::StringSliceAdditionalSpecFns;
use vstd::utf8::encode_utf8;
use crate::text::bytes_less;
use crate::text::lemma_lex_asymmetric;
use crate::text::lemma_lex_total;
use crate::text::lemma_lex_transitive;
use crate::text::lex_less;

verus! {

/// The lower-cased form of a text, as `str::to_lowercase` computes it.
pub uninterp spec fn lowercased(s: Seq<char>) -> Seq<char>;

/// Calls `str::to_lowercase`. The contract names the result: it is the
/// lower-cased form of the argument, a function of the text alone.
#[verifier::external_body]
fn lowercase(s: &str) -> (r: String)
    ensures
        r@ == lowercased(s@),
{
    s.to_lowercase()
}

/// What a listing needs to know of one of its entries.
pub trait Listed {
    /// The entry's file name.
    spec fn entry_name(&self) -> Seq<char>;

    /// Whether the entry is a directory.
    spec fn entry_is_dir(&self) -> bool;

    fn name_text(&self) -> (r: &str)
        ensures
            r@ == self.entry_name(),
    ;

    fn directory(&self) -> (r: bool)
        ensures
            r == self.entry_is_dir(),
    ;
}

/// The place of an entry in a listing: its kind, and the bytes of its
/// lower-cased name.
pub struct Rank {
    pub is_dir: bool,
    pub folded: Seq<u8>,
}

/// The rank of a name of the given kind.
pub open spec fn rank_from(is_dir: bool, name: Seq<char>) -> Rank {
    Rank { is_dir, folded: encode_utf8(lowercased(name)) }
}

/// The rank of an entry.
pub open spec fn rank_of<E: Listed>(e: E) -> Rank {
    rank_from(e.entry_is_dir(), e.entry_name())
}

/// `a` is listed strictly before `b`: a directory before a file, and within
/// one kind the name whose lower-cased bytes come first.
pub open spec fn rank_less(a: Rank, b: Rank) -> bool {
    (a.is_dir && !b.is_dir) || (a.is_dir == b.is_dir && lex_less(a.folded, b.folded))
}

/// No entry of the listing is ranked strictly before an earlier one.
pub open spec fn listing_ordered<E: Listed>(s: Seq<E>) -> bool {
    forall|i: int, j: int| 0 <= i < j < s.len() ==> !rank_less(rank_of(s[j]), rank_of(s[i]))
}

/// The entries of rank `k`.
pub open spec fn ranked<E: Listed>(k: Rank) -> spec_fn(E) -> bool {
    |e: E| rank_of(e) == k
}

/// `out` is `inp` in listing order: the same entries, none ranked before an
/// earlier one, and the entries of any one rank in the order they had in
/// `inp`.
pub open spec fn is_listing_of<E: Listed>(out: Seq<E>, inp: Seq<E>) -> bool {
    &&& listing_ordered(out)
    &&& out.to_multiset() == inp.to_multiset()
    &&& forall|k: Rank| #[trigger] out.filter(ranked::<E>(k)) == inp.filter(ranked::<E>(k))
}

/// Ranks are never listed before themselves, and never both ways round.
pub proof fn lemma_rank_asymmetric(a: Rank, b: Rank)
    requires
        rank_less(a, b),
    ensures
        !rank_less(b, a),
{
    if a.is_dir == b.is_dir {
        lemma_lex_asymmetric(a.folded, b.folded);
    }
}

/// Being listed before is transitive.
pub proof fn lemma_rank_transitive(a: Rank, b: Rank, c: Rank)
    requires
        rank_less(a, b),
        rank_less(b, c),
    ensures
        rank_less(a, c),
{
    if a.is_dir == b.is_dir && b.is_dir == c.is_dir {
        lemma_lex_transitive(a.folded, b.folded, c.folded);
    }
}

/// Two ranks are equal or one is listed before the other.
pub proof fn lemma_rank_total(a: Rank, b: Rank)
    ensures
        a == b || rank_less(a, b) || rank_less(b, a),
{
    lemma_lex_total(a.folded, b.folded);
}

/// What is not listed after `b` is listed before whatever `b` is listed
/// before.
proof fn lemma_rank_chain(a: Rank, b: Rank, c: Rank)
    requires
        !rank_less(b, a),
        rank_less(b, c),
    ensures
        rank_less(a, c),
{
    lemma_rank_total(a, b);
    if a != b {
        lemma_rank_transitive(a, b, c);
    }
}

/// Decides whether an entry is listed strictly before another, given the
/// kind and the lower-cased name of each: a directory before a file, and
/// within one kind the name whose bytes come first.
pub fn folded_less(a_dir: bool, a_folded: &str, b_dir: bool, b_folded: &str) -> (r: bool)
    ensures
        r == rank_less(
            Rank { is_dir: a_dir, folded: a_folded.spec_bytes() },
            Rank { is_dir: b_dir, folded: b_folded.spec_bytes() },
        ),
{
    if a_dir != b_dir {
        a_dir
    } else {
        bytes_less(a_folded.as_bytes(), b_folded.as_bytes())
    }
}

/// The lower-cased names in `folded` are those of the entries in `out`.
pub open spec fn folded_for<E: Listed>(folded: Seq<String>, out: Seq<E>) -> bool {
    &&& folded.len() == out.len()
    &&& forall|i: int| 0 <= i < out.len() ==> (#[trigger] folded[i])@ == lowercased(out[i].entry_name())
}

/// The first position of an ordered listing whose entry is not ranked before
/// the given rank.
fn insertion_point<E: Listed>(out: &Vec<E>, folded: &Vec<String>, is_dir: bool, key: &str) -> (at:
    usize)
    requires
        folded_for(folded@, out@),
        listing_ordered(out@),
    ensures
        at <= out.len(),
        forall|i: int|
            0 <= i < at ==> rank_less(
                #[trigger] rank_of(out[i]),
                Rank { is_dir, folded: key.spec_bytes() },
            ),
        forall|i: int|
            at <= i < out.len() ==> !rank_less(
                #[trigger] rank_of(out[i]),
                Rank { is_dir, folded: key.spec_bytes() },
            ),
{
    let ghost target = Rank { is_dir, folded: key.spec_bytes() };
    let mut lo: usize = 0;
    let mut hi: usize = out.len();
    while lo < hi
        invariant
            lo <= hi <= out.len(),
            folded_for(folded@, out@),
            listing_ordered(out@),
            target == (Rank { is_dir, folded: key.spec_bytes() }),
            forall|i: int| 0 <= i < lo ==> rank_less(#[trigger] rank_of(out[i]), target),
            forall|i: int| hi <= i < out.len() ==> !rank_less(#[trigger] rank_of(out[i]), target),
        decreases hi - lo,
    {
        let mid = lo + (hi - lo) / 2;
        let before = folded_less(out[mid].directory(), folded[mid].as_str(), is_dir, key);
        proof {
            let pivot = rank_of(out[mid as int]);
            assert(folded@[mid as int]@ == lowercased(out[mid as int].entry_name()));
            assert(before == rank_less(pivot, target));
            if before {
                assert forall|i: int| 0 <= i < mid + 1 implies rank_less(
                    #[trigger] rank_of(out[i]),
                    target,
                ) by {
                    if i < mid {
                        lemma_rank_chain(rank_of(out[i]), pivot, target);
                    }
                }
            } else {
                assert forall|i: int| mid <= i < out.len() implies !rank_less(
                    #[trigger] rank_of(out[i]),
                    target,
                ) by {
                    if mid < i && rank_less(rank_of(out[i]), target) {
                        lemma_rank_total(pivot, target);
                        if pivot != target {
                            lemma_rank_transitive(rank_of(out[i]), target, pivot);
                        }
                    }
                }
            }
        }
        if before {
            lo = mid + 1;
        } else {
            hi = mid;
        }
    }
    lo
}

/// Placing `e` into an ordered listing at the first position whose entry is
/// not ranked before it keeps the listing ordered, and puts `e` in front of
/// the entries of its own rank.
proof fn lemma_place<E: Listed>(out: Seq<E>, at: int, e: E)
    requires
        listing_ordered(out),
        0 <= at <= out.len(),
        forall|i: int| 0 <= i < at ==> rank_less(#[trigger] rank_of(out[i]), rank_of(e)),
        forall|i: int| at <= i < out.len() ==> !rank_less(#[trigger] rank_of(out[i]), rank_of(e)),
    ensures
        listing_ordered(out.insert(at, e)),
        forall|k: Rank| #[trigger]
            out.insert(at, e).filter(ranked::<E>(k)) == (seq![e] + out).filter(ranked::<E>(k)),
{
    let placed = out.insert(at, e);
    let head = out.take(at);
    let tail = out.skip(at);
    assert(out =~= head + tail);
    assert(placed =~= head + (seq![e] + tail));
    assert forall|i: int, j: int| 0 <= i < j < placed.len() implies !rank_less(
        rank_of(placed[j]),
        rank_of(placed[i]),
    ) by {
        if j == at {
            assert(placed[i] == out[i]);
            lemma_rank_asymmetric(rank_of(out[i]), rank_of(e));
        } else if i == at {
            assert(placed[j] == out[j - 1]);
        } else if j < at {
            assert(placed[i] == out[i] && placed[j] == out[j]);
        } else if i < at {
            assert(placed[i] == out[i] && placed[j] == out[j - 1]);
        } else {
            assert(placed[i] == out[i - 1] && placed[j] == out[j - 1]);
        }
    }
    assert forall|k: Rank| #[trigger]
        placed.filter(ranked::<E>(k)) == (seq![e] + out).filter(ranked::<E>(k)) by {
        let p = ranked::<E>(k);
        let one = if p(e) {
            seq![e]
        } else {
            Seq::<E>::empty()
        };
        Seq::filter_distributes_over_add(head, seq![e] + tail, p);
        Seq::filter_distributes_over_add(head, tail, p);
        tail.lemma_filter_prepend(e, p);
        out.lemma_filter_prepend(e, p);
        if p(e) {
            assert(head.all(|x: E| !p(x))) by {
                assert forall|i: int| 0 <= i < head.len() implies !p(#[trigger] head[i]) by {
                    assert(head[i] == out[i]);
                    lemma_rank_asymmetric(rank_of(out[i]), rank_of(e));
                }
            }
            head.lemma_all_neg_filter_empty(p);
            assert(head.filter(p) =~= Seq::<E>::empty());
            assert(placed.filter(p) =~= one + tail.filter(p));
            assert((seq![e] + out).filter(p) =~= one + tail.filter(p));
        } else {
            assert(placed.filter(p) =~= head.filter(p) + tail.filter(p));
            assert((seq![e] + out).filter(p) =~= head.filter(p) + tail.filter(p));
        }
    }
}

/// Puts entries into listing order: directories first, each kind by
/// lower-cased name, entries of equal rank in the order given.
pub fn sort_listing<E: Listed>(entries: Vec<E>) -> (out: Vec<E>)
    ensures
        is_listing_of(out@, entries@),
{
    let ghost given = entries@;
    let mut rest = entries;
    let mut out: Vec<E> = Vec::new();
    let mut folded: Vec<String> = Vec::new();
    proof {
        assert(given.skip(given.len() as int) =~= Seq::<E>::empty());
        assert(given.take(given.len() as int) =~= given);
    }
    while rest.len() > 0
        invariant
            rest.len() <= given.len(),
            rest@ == given.take(rest.len() as int),
            folded_for(folded@, out@),
            listing_ordered(out@),
            out@.to_multiset() == given.skip(rest.len() as int).to_multiset(),
            forall|k: Rank| #[trigger]
                out@.filter(ranked::<E>(k)) == given.skip(rest.len() as int).filter(ranked::<E>(k)),
        decreases rest.len(),
    {
        let ghost n = rest.len() as int;
        let ghost before = out@;
        let ghost keys_before = folded@;
        let e = rest.pop().unwrap();
        let key = lowercase(e.name_text());
        let is_dir = e.directory();
        let at = insertion_point(&out, &folded, is_dir, key.as_str());
        proof {
            assert(e == given[n - 1]);
            assert(rank_of(e) == (Rank { is_dir, folded: encode_utf8(key@) }));
            lemma_place(before, at as int, e);
            vstd::seq_lib::to_multiset_insert(before, at as int, e);
            assert(given.skip(n - 1) =~= seq![e] + given.skip(n));
            assert((seq![e] + given.skip(n)) =~= given.skip(n).insert(0, e));
            vstd::seq_lib::to_multiset_insert(given.skip(n), 0, e);
            assert(rest@ =~= given.take(n - 1));
            assert forall|k: Rank| #[trigger]
                before.insert(at as int, e).filter(ranked::<E>(k)) == given.skip(n - 1).filter(
                    ranked::<E>(k),
                ) by {
                let p = ranked::<E>(k);
                assert(before.filter(p) == given.skip(n).filter(p));
                before.lemma_filter_prepend(e, p);
                given.skip(n).lemma_filter_prepend(e, p);
            }
        }
        out.insert(at, e);
        folded.insert(at, key);
        proof {
            assert forall|i: int| 0 <= i < out@.len() implies (#[trigger] folded@[i])@ == lowercased(
                out@[i].entry_name(),
            ) by {
                if i < at {
                    assert(folded@[i] == keys_before[i] && out@[i] == before[i]);
                } else if i > at {
                    assert(folded@[i] == keys_before[i - 1] && out@[i] == before[i - 1]);
                }
            }
        }
    }
    proof {
        assert(given.skip(0) =~= given);
    }
    out
}

/// Two ordered listings of the same length that agree rank by rank are the
/// same listing.
proof fn lemma_ordered_listings_agree<E: Listed>(a: Seq<E>, b: Seq<E>)
    requires
        listing_ordered(a),
        listing_ordered(b),
        a.len() == b.len(),
        forall|k: Rank| #[trigger] a.filter(ranked::<E>(k)) == b.filter(ranked::<E>(k)),
    ensures
        a == b,
    decreases a.len(),
{
    if a.len() == 0 {
        assert(a =~= b);
    } else {
        let x = a.last();
        let y = b.last();
        let kx = rank_of(x);
        let ky = rank_of(y);
        let front_a = a.drop_last();
        let front_b = b.drop_last();
        assert(a =~= front_a.push(x));
        assert(b =~= front_b.push(y));
        front_a.lemma_filter_push(x, ranked::<E>(kx));
        front_b.lemma_filter_push(y, ranked::<E>(ky));
        // The last entry of each listing occurs in the other.
        assert(b.contains(x)) by {
            let f = a.filter(ranked::<E>(kx));
            assert(f[f.len() - 1] == x);
            assert(b.filter(ranked::<E>(kx)).contains(x));
            b.lemma_filter_contains_rev(ranked::<E>(kx), x);
        }
        assert(a.contains(y)) by {
            let f = b.filter(ranked::<E>(ky));
            assert(f[f.len() - 1] == y);
            assert(a.filter(ranked::<E>(ky)).contains(y));
            a.lemma_filter_contains_rev(ranked::<E>(ky), y);
        }
        // So neither is ranked before the other, and their ranks are one.
        let i = choose|i: int| 0 <= i < b.len() && b[i] == x;
        let j = choose|j: int| 0 <= j < a.len() && a[j] == y;
        assert(!rank_less(ky, kx)) by {
            if i < b.len() - 1 {
                assert(!rank_less(rank_of(b[b.len() - 1]), rank_of(b[i])));
            }
        }
        assert(!rank_less(kx, ky)) by {
            if j < a.len() - 1 {
                assert(!rank_less(rank_of(a[a.len() - 1]), rank_of(a[j])));
            }
        }
        lemma_rank_total(kx, ky);
        assert(kx == ky);
        // Being last of their rank in listings that agree on that rank, they
        // are the same entry.
        assert(x == y) by {
            let fa = a.filter(ranked::<E>(kx));
            let fb = b.filter(ranked::<E>(kx));
            assert(fa[fa.len() - 1] == x);
            assert(fb[fb.len() - 1] == y);
        }
        assert forall|i: int, j: int| 0 <= i < j < front_a.len() implies !rank_less(
            rank_of(front_a[j]),
            rank_of(front_a[i]),
        ) by {
            assert(front_a[i] == a[i] && front_a[j] == a[j]);
        }
        assert forall|i: int, j: int| 0 <= i < j < front_b.len() implies !rank_less(
            rank_of(front_b[j]),
            rank_of(front_b[i]),
        ) by {
            assert(front_b[i] == b[i] && front_b[j] == b[j]);
        }
        assert forall|k: Rank| #[trigger]
            front_a.filter(ranked::<E>(k)) == front_b.filter(ranked::<E>(k)) by {
            let p = ranked::<E>(k);
            front_a.lemma_filter_push(x, p);
            front_b.lemma_filter_push(y, p);
            assert(a.filter(p) == b.filter(p));
            if p(x) {
                assert(front_a.filter(p) =~= a.filter(p).drop_last());
                assert(front_b.filter(p) =~= b.filter(p).drop_last());
            }
        }
        lemma_ordered_listings_agree(front_a, front_b);
    }
}

/// The listing order of given entries is one: whatever puts them into
/// listing order arrives at the same sequence.
pub proof fn law_listing_is_unique<E: Listed>(a: Seq<E>, b: Seq<E>, inp: Seq<E>)
    requires
        is_listing_of(a, inp),
        is_listing_of(b, inp),
    ensures
        a == b,
{
    vstd::seq_lib::to_multiset_len(a);
    vstd::seq_lib::to_multiset_len(b);
    vstd::seq_lib::to_multiset_len(inp);
    lemma_ordered_listings_agree(a, b);
}

/// A sequence that is in listing order already is its own listing: putting
/// it into listing order changes nothing.
pub proof fn law_ordered_listing_is_kept<E: Listed>(out: Seq<E>, inp: Seq<E>)
    requires
        listing_ordered(inp),
        is_listing_of(out, inp),
    ensures
        out == inp,
{
    law_listing_is_unique(out, inp, inp);
}

} // verus!
