//! Text as sequences of characters: ordering and tag composition.

use vstd::prelude::*;
use vstd::string::*;
use vstd::utf8::encode_utf8_decode_utf8;

verus! {

/// The separator between a domain-ID field name and its value in a tag.
pub open spec fn separator() -> char {
    ':'
}

/// Whether `a` and `b` agree on their first `n` characters.
pub open spec fn agree_upto(a: Seq<char>, b: Seq<char>, n: int) -> bool {
    &&& 0 <= n <= a.len()
    &&& n <= b.len()
    &&& forall|k: int| 0 <= k < n ==> a[k] == b[k]
}

/// Lexicographic order by code point: `a` comes strictly before `b`.
///
/// Either `a` is a proper prefix of `b`, or at the first position where they
/// differ `a` holds the smaller character.
pub open spec fn text_lt(a: Seq<char>, b: Seq<char>) -> bool {
    exists|n: int|
        #[trigger] agree_upto(a, b, n) && (if n == a.len() {
            n < b.len()
        } else {
            n < b.len() && (a[n] as int) < (b[n] as int)
        })
}

/// No text comes before itself.
pub proof fn lemma_text_lt_irreflexive(a: Seq<char>)
    ensures
        !text_lt(a, a),
{
    if text_lt(a, a) {
        let n = choose|n: int|
            #[trigger] agree_upto(a, a, n) && (if n == a.len() {
                n < a.len()
            } else {
                n < a.len() && (a[n] as int) < (a[n] as int)
            });
        assert(false);
    }
}

/// The order is asymmetric: of two texts at most one comes before the other.
pub proof fn lemma_text_lt_asymmetric(a: Seq<char>, b: Seq<char>)
    requires
        text_lt(a, b),
    ensures
        !text_lt(b, a),
        a != b,
{
    let n = choose|n: int|
        #[trigger] agree_upto(a, b, n) && (if n == a.len() {
            n < b.len()
        } else {
            n < b.len() && (a[n] as int) < (b[n] as int)
        });
    if text_lt(b, a) {
        let m = choose|m: int|
            #[trigger] agree_upto(b, a, m) && (if m == b.len() {
                m < a.len()
            } else {
                m < a.len() && (b[m] as int) < (a[m] as int)
            });
        if m < n {
            assert(a[m] == b[m]);
        } else if n < m {
            assert(b[n] == a[n]);
        }
        assert(false);
    }
    if a == b {
        lemma_text_lt_irreflexive(a);
    }
}

/// The order is transitive.
pub proof fn lemma_text_lt_transitive(a: Seq<char>, b: Seq<char>, c: Seq<char>)
    requires
        text_lt(a, b),
        text_lt(b, c),
    ensures
        text_lt(a, c),
{
    let n = choose|n: int|
        #[trigger] agree_upto(a, b, n) && (if n == a.len() {
            n < b.len()
        } else {
            n < b.len() && (a[n] as int) < (b[n] as int)
        });
    let m = choose|m: int|
        #[trigger] agree_upto(b, c, m) && (if m == b.len() {
            m < c.len()
        } else {
            m < c.len() && (b[m] as int) < (c[m] as int)
        });
    let k = if n <= m { n } else { m };
    assert(agree_upto(a, c, k)) by {
        assert forall|i: int| 0 <= i < k implies a[i] == c[i] by {
            assert(a[i] == b[i]);
            assert(b[i] == c[i]);
        }
    }
    if n < m {
        assert(b[n] == c[n]);
    } else if m < n {
        assert(a[m] == b[m]);
    }
}

/// The order is total: two different texts are ordered one way or the other.
pub proof fn lemma_text_lt_total(a: Seq<char>, b: Seq<char>)
    ensures
        a == b || text_lt(a, b) || text_lt(b, a),
{
    lemma_common_prefix(a, b, 0);
}

/// From any agreed prefix, either the texts are equal or one precedes the other.
proof fn lemma_common_prefix(a: Seq<char>, b: Seq<char>, n: int)
    requires
        agree_upto(a, b, n),
    ensures
        a == b || text_lt(a, b) || text_lt(b, a),
    decreases a.len() - n,
{
    assert(agree_upto(b, a, n));
    if n == a.len() {
        if n == b.len() {
            assert(a =~= b);
        }
    } else if n == b.len() {
    } else if a[n] == b[n] {
        assert(agree_upto(a, b, n + 1));
        lemma_common_prefix(a, b, n + 1);
    } else {
        assert((a[n] as int) != (b[n] as int));
    }
}

/// Decides whether two texts are equal, by their bytes: texts are equal
/// exactly when their UTF-8 encodings are.
pub fn text_eq(a: &str, b: &str) -> (r: bool)
    ensures
        r == (a@ == b@),
{
    let x = a.as_bytes();
    let y = b.as_bytes();
    proof {
        encode_utf8_decode_utf8(a@);
        encode_utf8_decode_utf8(b@);
    }
    if x.len() != y.len() {
        return false;
    }
    let mut i: usize = 0;
    while i < x.len()
        invariant
            i <= x.len(),
            x.len() == y.len(),
            x@ == a.spec_bytes(),
            y@ == b.spec_bytes(),
            forall|k: int| 0 <= k < i ==> x@[k] == y@[k],
        decreases x.len() - i,
    {
        if x[i] != y[i] {
            return false;
        }
        i = i + 1;
    }
    assert(x@ =~= y@);
    true
}

/// Decides the order of two texts.
pub fn text_less(a: &str, b: &str) -> (r: bool)
    ensures
        r == text_lt(a@, b@),
{
    let la: usize = a.unicode_len();
    let lb: usize = b.unicode_len();
    let mut i: usize = 0;
    while i < la && i < lb
        invariant
            la == a@.len(),
            lb == b@.len(),
            agree_upto(a@, b@, i as int),
        decreases la - i,
    {
        let x: char = a.get_char(i);
        let y: char = b.get_char(i);
        if x != y {
            let r = (x as u32) < (y as u32);
            proof {
                if r {
                    assert(text_lt(a@, b@));
                } else {
                    assert(agree_upto(b@, a@, i as int));
                    assert(text_lt(b@, a@));
                    lemma_text_lt_asymmetric(b@, a@);
                }
            }
            return r;
        }
        i = i + 1;
    }
    proof {
        if i == la && i < lb {
            assert(text_lt(a@, b@));
        } else {
            assert(agree_upto(b@, a@, i as int));
            if i < la {
                assert(text_lt(b@, a@));
                lemma_text_lt_asymmetric(b@, a@);
            } else {
                assert(a@ =~= b@);
                lemma_text_lt_irreflexive(a@);
            }
        }
    }
    i == la && i < lb
}

/// The tag under which a value of a domain-ID field is indexed:
/// the field name, the separator, the value.
pub open spec fn tag_text(field: Seq<char>, value: Seq<char>) -> Seq<char> {
    field + seq![separator()] + value
}

/// Builds the tag for one value of a domain-ID field.
pub fn make_tag(field: &str, value: &str) -> (tag: String)
    ensures
        tag@ == tag_text(field@, value@),
{
    let mut tag = String::from_str(field);
    proof {
        reveal_strlit(":");
        assert(":"@ =~= seq![separator()]);
    }
    tag.append(":");
    tag.append(value);
    tag
}

/// Whether a text holds the tag separator.
pub open spec fn has_separator(s: Seq<char>) -> bool {
    s.contains(separator())
}

/// Decides whether a text holds the tag separator.
pub fn contains_separator(s: &str) -> (r: bool)
    ensures
        r == has_separator(s@),
{
    let n: usize = s.unicode_len();
    let mut i: usize = 0;
    while i < n
        invariant
            n == s@.len(),
            i <= n,
            forall|k: int| 0 <= k < i ==> s@[k] != separator(),
        decreases n - i,
    {
        if s.get_char(i) == ':' {
            assert(s@.contains(separator()));
            return true;
        }
        i = i + 1;
    }
    false
}


/// The character of a decimal digit.
pub open spec fn digit_char(d: nat) -> char {
    if d == 0 {
        '0'
    } else if d == 1 {
        '1'
    } else if d == 2 {
        '2'
    } else if d == 3 {
        '3'
    } else if d == 4 {
        '4'
    } else if d == 5 {
        '5'
    } else if d == 6 {
        '6'
    } else if d == 7 {
        '7'
    } else if d == 8 {
        '8'
    } else {
        '9'
    }
}

/// A number in decimal notation, without leading zeros.
pub open spec fn decimal_text(n: nat) -> Seq<char>
    decreases n,
{
    if n < 10 {
        seq![digit_char(n)]
    } else {
        decimal_text(n / 10).push(digit_char(n % 10))
    }
}

/// A decimal digit as text.
fn digit_str(d: u64) -> (r: &'static str)
    requires
        d < 10,
    ensures
        r@ == seq![digit_char(d as nat)],
{
    proof {
        reveal_strlit("0");
        reveal_strlit("1");
        reveal_strlit("2");
        reveal_strlit("3");
        reveal_strlit("4");
        reveal_strlit("5");
        reveal_strlit("6");
        reveal_strlit("7");
        reveal_strlit("8");
        reveal_strlit("9");
    }
    let r = if d == 0 {
        "0"
    } else if d == 1 {
        "1"
    } else if d == 2 {
        "2"
    } else if d == 3 {
        "3"
    } else if d == 4 {
        "4"
    } else if d == 5 {
        "5"
    } else if d == 6 {
        "6"
    } else if d == 7 {
        "7"
    } else if d == 8 {
        "8"
    } else {
        "9"
    };
    assert(r@ =~= seq![digit_char(d as nat)]);
    r
}

/// Writes a number in decimal notation.
pub fn decimal(n: u64) -> (r: String)
    ensures
        r@ == decimal_text(n as nat),
{
    let mut rest: u64 = n;
    let mut low = String::new();
    assert(decimal_text(n as nat) =~= decimal_text(rest as nat) + low@);
    while rest >= 10
        invariant
            decimal_text(n as nat) == decimal_text(rest as nat) + low@,
        decreases rest,
    {
        let mut next = String::from_str(digit_str(rest % 10));
        next.append(low.as_str());
        assert(decimal_text(rest as nat) + low@ =~= decimal_text((rest / 10) as nat) + next@);
        low = next;
        rest = rest / 10;
    }
    let mut r = String::from_str(digit_str(rest));
    r.append(low.as_str());
    r
}

} // verus!
