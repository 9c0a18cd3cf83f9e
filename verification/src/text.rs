//! Text as sequences of characters: endings, lower case, and the order in
//! which entry names are compared.

use vstd::prelude::*;

verus! {

/// What `str::to_lowercase` returns for a text: its lower-case equivalent
/// by the Unicode rules.
pub uninterp spec fn lowercase_text(text: Seq<char>) -> Seq<char>;

/// Calls `str::to_lowercase`. The contract only names the result: the
/// mapping is that of the Unicode tables that std carries.
#[verifier::external_body]
pub(crate) fn lowercase(text: &str) -> (lowered: String)
    ensures
        lowered@ == lowercase_text(text@),
{
    text.to_lowercase()
}

/// The characters of `text`, in order.
pub fn chars_of(text: &str) -> (chars: Vec<char>)
    ensures
        chars@ == text@,
{
    let mut chars: Vec<char> = Vec::new();
    for c in it: text.chars()
        invariant
            chars@ == it.seq().take(it.index()),
            it.seq() == text@,
    {
        chars.push(c);
    }
    chars
}

/// Whether `text` ends with `ending`.
pub fn ends_with(text: &Vec<char>, ending: &str) -> (yes: bool)
    ensures
        yes == ending@.is_suffix_of(text@),
{
    let tail: Vec<char> = chars_of(ending);
    if tail.len() > text.len() {
        return false;
    }
    let start: usize = text.len() - tail.len();
    let mut i: usize = 0;
    while i < tail.len()
        invariant
            tail@ == ending@,
            start + tail.len() == text.len(),
            i <= tail.len(),
            forall|j: int| 0 <= j < i ==> text@[start + j] == tail@[j],
        decreases tail.len() - i,
    {
        if text[start + i] != tail[i] {
            assert(text@.subrange(start as int, text.len() as int)[i as int] != tail@[i as int]);
            return false;
        }
        i += 1;
    }
    assert(tail@ =~= text@.subrange(start as int, text.len() as int));
    true
}

/// Whether `a` and `b` agree on their first `k` characters.
pub open spec fn agree_up_to(a: Seq<char>, b: Seq<char>, k: int) -> bool {
    &&& 0 <= k <= a.len()
    &&& k <= b.len()
    &&& forall|i: int| 0 <= i < k ==> a[i] == b[i]
}

/// Whether `a` stands before `b` in the lexicographic order of code points:
/// after a common beginning either `a` ends and `b` goes on, or `a` has the
/// smaller character. This is the order in which Rust compares strings.
pub open spec fn precedes(a: Seq<char>, b: Seq<char>) -> bool {
    exists|k: int| #[trigger]
        agree_up_to(a, b, k) && k < b.len() && (k == a.len() || a[k] < b[k])
}

/// Whether `a` stands before `b` in the lexicographic order of code points.
pub fn chars_precede(a: &Vec<char>, b: &Vec<char>) -> (yes: bool)
    ensures
        yes == precedes(a@, b@),
{
    let mut i: usize = 0;
    while i < a.len() && i < b.len()
        invariant
            agree_up_to(a@, b@, i as int),
        decreases a.len() - i,
    {
        if a[i] != b[i] {
            let smaller: bool = a[i] < b[i];
            proof {
                if smaller {
                    assert(agree_up_to(a@, b@, i as int));
                } else {
                    assert forall|k: int| #[trigger] agree_up_to(a@, b@, k) implies !(k < b@.len()
                        && (k == a@.len() || a@[k] < b@[k])) by {
                        if k > i {
                            assert(a@[i as int] == b@[i as int]);
                        }
                    }
                }
            }
            return smaller;
        }
        i += 1;
    }
    let shorter: bool = a.len() < b.len();
    proof {
        if shorter {
            assert(agree_up_to(a@, b@, i as int));
        } else {
            assert forall|k: int| #[trigger] agree_up_to(a@, b@, k) implies !(k < b@.len() && (k
                == a@.len() || a@[k] < b@[k])) by {}
        }
    }
    shorter
}

/// Whether the text `a` stands before the text `b` in the lexicographic
/// order of code points.
pub fn text_precedes(a: &str, b: &str) -> (yes: bool)
    ensures
        yes == precedes(a@, b@),
{
    let left: Vec<char> = chars_of(a);
    let right: Vec<char> = chars_of(b);
    chars_precede(&left, &right)
}

/// No text stands before itself.
pub proof fn lemma_precedes_irreflexive(a: Seq<char>)
    ensures
        !precedes(a, a),
{
}

/// Of two different texts one stands before the other.
pub proof fn lemma_precedes_total(a: Seq<char>, b: Seq<char>)
    ensures
        a == b || precedes(a, b) || precedes(b, a),
{
    lemma_order_from(a, b, 0);
}

/// Two texts that agree on their first `k` characters are equal or one
/// stands before the other.
proof fn lemma_order_from(a: Seq<char>, b: Seq<char>, k: int)
    requires
        agree_up_to(a, b, k),
    ensures
        a == b || precedes(a, b) || precedes(b, a),
    decreases a.len() - k,
{
    assert(agree_up_to(b, a, k));
    if k == a.len() && k == b.len() {
        assert(a =~= b);
    } else if k < a.len() && k < b.len() && a[k] == b[k] {
        lemma_order_from(a, b, k + 1);
    }
}

/// Two texts never stand before each other.
pub proof fn lemma_precedes_asymmetric(a: Seq<char>, b: Seq<char>)
    requires
        precedes(a, b),
    ensures
        !precedes(b, a),
{
    let k = choose|k: int| #[trigger]
        agree_up_to(a, b, k) && k < b.len() && (k == a.len() || a[k] < b[k]);
    assert forall|j: int| #[trigger] agree_up_to(b, a, j) implies !(j < a.len() && (j == b.len()
        || b[j] < a[j])) by {
        if j > k {
            if k < a.len() {
                assert(b[k] == a[k]);
            }
        } else if j < k {
            assert(a[j] == b[j]);
        }
    }
}

/// What stands before a text that stands before a third stands before the
/// third.
pub proof fn lemma_precedes_transitive(a: Seq<char>, b: Seq<char>, c: Seq<char>)
    requires
        precedes(a, b),
        precedes(b, c),
    ensures
        precedes(a, c),
{
    let k = choose|k: int| #[trigger]
        agree_up_to(a, b, k) && k < b.len() && (k == a.len() || a[k] < b[k]);
    let m = choose|m: int| #[trigger]
        agree_up_to(b, c, m) && m < c.len() && (m == b.len() || b[m] < c[m]);
    let n = if k <= m {
        k
    } else {
        m
    };
    assert forall|i: int| 0 <= i < n implies a[i] == c[i] by {
        assert(a[i] == b[i]);
        assert(b[i] == c[i]);
    }
    assert(agree_up_to(a, c, n));
    if k < m {
        if k < a.len() {
            assert(b[k] == c[k]);
        }
    } else if k > m {
        assert(a[m] == b[m]);
    }
}

/// The decimal digit that stands for `value`, for `value` below 10.
pub open spec fn decimal_digit(value: int) -> char {
    ('0' as u8 + value) as u8 as char
}

/// A number written in decimal, without leading zeros.
pub open spec fn decimal_text(n: nat) -> Seq<char>
    decreases n,
{
    if n < 10 {
        seq![decimal_digit(n as int)]
    } else {
        decimal_text(n / 10).push(decimal_digit(n as int % 10))
    }
}

/// The text of one decimal digit.
fn digit(value: usize) -> (text: &'static str)
    requires
        value < 10,
    ensures
        text@ == seq![decimal_digit(value as int)],
{
    proof {
        reveal_strlit("0");
        reveal_strlit("1");
        reveal_strlit("2");
        reveal_strlit("3");
        reveal_strlit("4");
        reveal_strlit("5");
        reveal_strlit("6");
        reveal_strlit("7");
        reveal_strlit("8");
        reveal_strlit("9");
    }
    let text: &'static str = if value == 0 {
        "0"
    } else if value == 1 {
        "1"
    } else if value == 2 {
        "2"
    } else if value == 3 {
        "3"
    } else if value == 4 {
        "4"
    } else if value == 5 {
        "5"
    } else if value == 6 {
        "6"
    } else if value == 7 {
        "7"
    } else if value == 8 {
        "8"
    } else {
        "9"
    };
    assert(text@ =~= seq![decimal_digit(value as int)]);
    text
}

/// `n` written in decimal.
pub fn decimal(n: usize) -> (text: String)
    ensures
        text@ == decimal_text(n as nat),
    decreases n,
{
    if n < 10 {
        digit(n).to_owned()
    } else {
        let mut text: String = decimal(n / 10);
        text.append(digit(n % 10));
        assert(text@ =~= decimal_text(n as nat));
        text
    }
}

} // verus!
