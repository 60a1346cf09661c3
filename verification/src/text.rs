//! Text helpers shared by the other modules: equality of string slices, the
//! byte-wise lexicographic order of strings, and decimal rendering.

use vstd::prelude::*;
use vstd::string::StrSliceExecFns;
use vstd::string::StringExecFns;
use vstd::string::StringSliceAdditionalSpecFns;
use vstd::utf8::encode_utf8_decode_utf8;

verus! {

/// Strict lexicographic order on byte strings: `x` comes before `y` when, at
/// the first position where they differ, `x` has the smaller byte, or when
/// `x` is a proper prefix of `y`.
pub open spec fn lex_less(x: Seq<u8>, y: Seq<u8>) -> bool {
    exists|k: int| first_gap(x, y, k)
}

/// `k` is a position up to which `x` and `y` agree and at which `x` falls
/// below `y`.
pub open spec fn first_gap(x: Seq<u8>, y: Seq<u8>, k: int) -> bool {
    &&& 0 <= k <= x.len()
    &&& k < y.len()
    &&& x.take(k) == y.take(k)
    &&& (k < x.len() ==> x[k] < y[k])
}

/// Two byte strings that agree on their first `k + 1` bytes agree on every
/// shorter prefix.
proof fn lemma_take_agrees(x: Seq<u8>, y: Seq<u8>, k: int, j: int)
    requires
        0 <= j <= k <= x.len(),
        k <= y.len(),
        x.take(k) == y.take(k),
    ensures
        x.take(j) == y.take(j),
        j < k ==> x[j] == y[j],
{
    assert(x.take(j) =~= x.take(k).take(j));
    assert(y.take(j) =~= y.take(k).take(j));
    if j < k {
        assert(x[j] == x.take(k)[j]);
        assert(y[j] == y.take(k)[j]);
    }
}

/// No byte string comes before itself.
pub proof fn lemma_lex_irreflexive(x: Seq<u8>)
    ensures
        !lex_less(x, x),
{
}

/// The order is asymmetric.
pub proof fn lemma_lex_asymmetric(x: Seq<u8>, y: Seq<u8>)
    requires
        lex_less(x, y),
    ensures
        !lex_less(y, x),
{
    let k = choose|k: int| first_gap(x, y, k);
    if lex_less(y, x) {
        let m = choose|m: int| first_gap(y, x, m);
        if m < k {
            lemma_take_agrees(x, y, k, m);
        } else if k < m {
            lemma_take_agrees(y, x, m, k);
        }
    }
}

/// The order is transitive.
pub proof fn lemma_lex_transitive(x: Seq<u8>, y: Seq<u8>, z: Seq<u8>)
    requires
        lex_less(x, y),
        lex_less(y, z),
    ensures
        lex_less(x, z),
{
    let k = choose|k: int| first_gap(x, y, k);
    let m = choose|m: int| first_gap(y, z, m);
    if k <= m {
        lemma_take_agrees(y, z, m, k);
        assert(first_gap(x, z, k));
    } else {
        lemma_take_agrees(x, y, k, m);
        assert(first_gap(x, z, m));
    }
}

/// Any two distinct byte strings are ordered one way or the other.
pub proof fn lemma_lex_total(x: Seq<u8>, y: Seq<u8>)
    ensures
        x == y || lex_less(x, y) || lex_less(y, x),
{
    assert(x.take(0) =~= y.take(0));
    lemma_agreement_or_gap(x, y, 0);
}

/// From a position up to which `x` and `y` agree, they either agree to the
/// end or one of them falls below the other.
proof fn lemma_agreement_or_gap(x: Seq<u8>, y: Seq<u8>, i: int)
    requires
        0 <= i <= x.len(),
        i <= y.len(),
        x.take(i) == y.take(i),
    ensures
        x == y || lex_less(x, y) || lex_less(y, x),
    decreases x.len() - i,
{
    if i == x.len() {
        if i == y.len() {
            assert(x =~= x.take(i));
            assert(y =~= y.take(i));
        } else {
            assert(first_gap(x, y, i));
        }
    } else if i == y.len() {
        assert(first_gap(y, x, i));
    } else if x[i] < y[i] {
        assert(first_gap(x, y, i));
    } else if y[i] < x[i] {
        assert(first_gap(y, x, i));
    } else {
        assert(x.take(i + 1) =~= x.take(i).push(x[i]));
        assert(y.take(i + 1) =~= y.take(i).push(y[i]));
        lemma_agreement_or_gap(x, y, i + 1);
    }
}

/// Decides the lexicographic order of two byte strings.
pub fn bytes_less(x: &[u8], y: &[u8]) -> (r: bool)
    ensures
        r == lex_less(x@, y@),
{
    let mut i: usize = 0;
    while i < x.len() && i < y.len()
        invariant
            i <= x.len(),
            i <= y.len(),
            x@.take(i as int) == y@.take(i as int),
        decreases x.len() - i,
    {
        if x[i] != y[i] {
            let below = x[i] < y[i];
            proof {
                if below {
                    assert(first_gap(x@, y@, i as int));
                } else {
                    assert(first_gap(y@, x@, i as int));
                    lemma_lex_asymmetric(y@, x@);
                }
            }
            return below;
        }
        proof {
            assert(x@.take(i + 1) =~= x@.take(i as int).push(x@[i as int]));
            assert(y@.take(i + 1) =~= y@.take(i as int).push(y@[i as int]));
        }
        i += 1;
    }
    let shorter = i < y.len();
    proof {
        if shorter {
            assert(first_gap(x@, y@, i as int));
        } else {
            assert(y@ =~= y@.take(i as int));
            if i == x.len() {
                assert(x@ =~= x@.take(i as int));
                lemma_lex_irreflexive(x@);
            } else {
                assert(first_gap(y@, x@, i as int));
                lemma_lex_asymmetric(y@, x@);
            }
        }
    }
    shorter
}

/// Whether two string slices hold the same text.
pub fn same_text(a: &str, b: &str) -> (r: bool)
    ensures
        r == (a@ == b@),
{
    let x = a.as_bytes();
    let y = b.as_bytes();
    proof {
        encode_utf8_decode_utf8(a@);
        encode_utf8_decode_utf8(b@);
    }
    if x.len() != y.len() {
        return false;
    }
    let mut i: usize = 0;
    while i < x.len()
        invariant
            i <= x.len(),
            x.len() == y.len(),
            x@ == a.spec_bytes(),
            y@ == b.spec_bytes(),
            a@ == vstd::utf8::decode_utf8(a.spec_bytes()),
            b@ == vstd::utf8::decode_utf8(b.spec_bytes()),
            forall|j: int| 0 <= j < i ==> x@[j] == y@[j],
        decreases x.len() - i,
    {
        if x[i] != y[i] {
            return false;
        }
        i += 1;
    }
    assert(x@ =~= y@);
    true
}

/// Whether `c` separates the components of a path. The slash and the
/// backslash both do, on every platform: a path is taken as text, and no
/// platform is asked which of the two it uses. So on a platform whose file
/// names may hold a backslash, what follows the last backslash of a name
/// counts as a component of its own.
pub open spec fn is_separator(c: char) -> bool {
    c == '/' || c == '\\'
}

/// The last component of the path `p` is `name`: `p` is `name` itself, or
/// ends with a separator, slash or backslash, followed by `name`.
pub open spec fn final_component_is(p: Seq<char>, name: Seq<char>) -> bool {
    &&& name.len() <= p.len()
    &&& p.skip(p.len() - name.len()) == name
    &&& (p.len() == name.len() || is_separator(p[p.len() - name.len() - 1]))
}

/// Decides whether the last component of `path` is `name`, with the slash
/// and the backslash both taken as separators, whatever the platform.
pub fn ends_with_component(path: &str, name: &str) -> (r: bool)
    ensures
        r == final_component_is(path@, name@),
{
    let n = path.unicode_len();
    let k = name.unicode_len();
    if n < k {
        return false;
    }
    let start = n - k;
    let mut i: usize = 0;
    while i < k
        invariant
            i <= k,
            start + k == n,
            n == path@.len(),
            k == name@.len(),
            forall|j: int| 0 <= j < i ==> path@[start + j] == name@[j],
        decreases k - i,
    {
        if path.get_char(start + i) != name.get_char(i) {
            proof {
                assert(path@.skip(start as int)[i as int] == path@[start + i]);
            }
            return false;
        }
        i += 1;
    }
    assert(path@.skip(start as int) =~= name@);
    if start == 0 {
        true
    } else {
        let c = path.get_char(start - 1);
        c == '/' || c == '\\'
    }
}

/// The character of a decimal digit.
pub open spec fn digit_char(d: nat) -> char {
    if d == 0 {
        '0'
    } else if d == 1 {
        '1'
    } else if d == 2 {
        '2'
    } else if d == 3 {
        '3'
    } else if d == 4 {
        '4'
    } else if d == 5 {
        '5'
    } else if d == 6 {
        '6'
    } else if d == 7 {
        '7'
    } else if d == 8 {
        '8'
    } else {
        '9'
    }
}

/// The decimal numeral of `n`, without leading zeros.
pub open spec fn decimal(n: nat) -> Seq<char>
    decreases n,
{
    if n < 10 {
        seq![digit_char(n)]
    } else {
        decimal(n / 10).push(digit_char(n % 10))
    }
}

/// The one-character text of a decimal digit.
fn digit_text(d: u32) -> (r: &'static str)
    requires
        d < 10,
    ensures
        r@ == seq![digit_char(d as nat)],
{
    proof {
        reveal_strlit("0");
        reveal_strlit("1");
        reveal_strlit("2");
        reveal_strlit("3");
        reveal_strlit("4");
        reveal_strlit("5");
        reveal_strlit("6");
        reveal_strlit("7");
        reveal_strlit("8");
        reveal_strlit("9");
    }
    let r = if d == 0 {
        "0"
    } else if d == 1 {
        "1"
    } else if d == 2 {
        "2"
    } else if d == 3 {
        "3"
    } else if d == 4 {
        "4"
    } else if d == 5 {
        "5"
    } else if d == 6 {
        "6"
    } else if d == 7 {
        "7"
    } else if d == 8 {
        "8"
    } else {
        "9"
    };
    assert(r@ =~= seq![digit_char(d as nat)]);
    r
}

/// Appends the decimal numeral of `n` to `out`.
pub fn push_decimal(out: &mut String, n: u32)
    ensures
        final(out)@ == old(out)@ + decimal(n as nat),
    decreases n,
{
    if n >= 10 {
        push_decimal(out, n / 10);
    }
    out.append(digit_text(n % 10));
    proof {
        if n >= 10 {
            assert(old(out)@ + decimal((n / 10) as nat) + seq![digit_char((n % 10) as nat)] =~= old(
                out,
            )@ + decimal((n / 10) as nat).push(digit_char((n % 10) as nat)));
        }
    }
}

} // verus!
