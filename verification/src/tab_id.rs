//! Tab identifiers: an opaque token minted from a monotonic counter, whose
//! textual form is `"tab_"` followed by the counter in decimal.

use vstd::prelude::*;
use vstd::string::StringExecFns;

verus! {

/// An identifier for one tab. Identifiers are minted by the registry from a
/// monotonic counter and are never reused, even after the tab is closed.
#[derive(Clone, Copy, PartialEq, Eq, Structural, Debug, Hash)]
pub struct TabId {
    pub num: u64,
}

/// The digit character for a value below ten.
pub open spec fn digit_char(d: nat) -> char {
    if d == 0 {
        '0'
    } else if d == 1 {
        '1'
    } else if d == 2 {
        '2'
    } else if d == 3 {
        '3'
    } else if d == 4 {
        '4'
    } else if d == 5 {
        '5'
    } else if d == 6 {
        '6'
    } else if d == 7 {
        '7'
    } else if d == 8 {
        '8'
    } else {
        '9'
    }
}

/// The decimal representation of `n`, most significant digit first, with no
/// leading zeros (except for `n == 0`, which is the single digit `0`).
pub open spec fn dec_rep(n: nat) -> Seq<char>
    decreases n,
{
    if n < 10 {
        seq![digit_char(n)]
    } else {
        dec_rep(n / 10).push(digit_char(n % 10))
    }
}

/// The textual form of the identifier whose counter value is `n`.
pub open spec fn tab_label(n: nat) -> Seq<char> {
    "tab_"@ + dec_rep(n)
}

fn digit_str(d: u64) -> (r: &'static str)
    requires
        d < 10,
    ensures
        r@ == seq![digit_char(d as nat)],
{
    proof {
        reveal_strlit("0");
        reveal_strlit("1");
        reveal_strlit("2");
        reveal_strlit("3");
        reveal_strlit("4");
        reveal_strlit("5");
        reveal_strlit("6");
        reveal_strlit("7");
        reveal_strlit("8");
        reveal_strlit("9");
    }
    let r = if d == 0 {
        "0"
    } else if d == 1 {
        "1"
    } else if d == 2 {
        "2"
    } else if d == 3 {
        "3"
    } else if d == 4 {
        "4"
    } else if d == 5 {
        "5"
    } else if d == 6 {
        "6"
    } else if d == 7 {
        "7"
    } else if d == 8 {
        "8"
    } else {
        "9"
    };
    proof {
        assert(r@ =~= seq![digit_char(d as nat)]);
    }
    r
}

/// Appends the decimal representation of `m` to `s`.
fn push_dec(s: &mut String, m: u64)
    ensures
        final(s)@ == old(s)@ + dec_rep(m as nat),
    decreases m,
{
    if m >= 10 {
        push_dec(s, m / 10);
    }
    s.append(digit_str(m % 10));
    proof {
        if m < 10 {
            assert(m as nat % 10 == m as nat);
            assert(dec_rep(m as nat) =~= seq![digit_char(m as nat % 10)]);
        } else {
            assert(dec_rep(m as nat) == dec_rep(m as nat / 10).push(digit_char(m as nat % 10)));
            assert(dec_rep(m as nat / 10).push(digit_char(m as nat % 10)) =~= dec_rep(
                m as nat / 10,
            ) + seq![digit_char(m as nat % 10)]);
        }
        assert(final(s)@ =~= old(s)@ + dec_rep(m as nat));
    }
}

/// The numeric value of a digit character; ten for any other character.
pub open spec fn digit_val(c: char) -> nat {
    if c == '0' {
        0
    } else if c == '1' {
        1
    } else if c == '2' {
        2
    } else if c == '3' {
        3
    } else if c == '4' {
        4
    } else if c == '5' {
        5
    } else if c == '6' {
        6
    } else if c == '7' {
        7
    } else if c == '8' {
        8
    } else if c == '9' {
        9
    } else {
        10
    }
}

/// The value of a digit string, read left to right.
pub open spec fn chars_val(s: Seq<char>) -> nat
    decreases s.len(),
{
    if s.len() == 0 {
        0
    } else {
        chars_val(s.drop_last()) * 10 + digit_val(s.last())
    }
}

proof fn lemma_digit_roundtrip(d: nat)
    requires
        d < 10,
    ensures
        digit_val(digit_char(d)) == d,
{
}

/// Every character of a decimal representation is a digit.
proof fn lemma_dec_rep_digits(n: nat)
    ensures
        forall|k: int| 0 <= k < dec_rep(n).len() ==> digit_val(#[trigger] dec_rep(n)[k]) < 10,
    decreases n,
{
    if n < 10 {
        lemma_digit_roundtrip(n);
    } else {
        lemma_dec_rep_digits(n / 10);
        lemma_digit_roundtrip(n % 10);
        assert forall|k: int| 0 <= k < dec_rep(n).len() implies digit_val(
            #[trigger] dec_rep(n)[k],
        ) < 10 by {
            if k < dec_rep(n / 10).len() {
                assert(dec_rep(n)[k] == dec_rep(n / 10)[k]);
            } else {
                assert(dec_rep(n)[k] == digit_char(n % 10));
            }
        }
    }
}

/// Reading the decimal representation of `n` back as a number gives `n`.
proof fn lemma_dec_rep_value(n: nat)
    ensures
        chars_val(dec_rep(n)) == n,
    decreases n,
{
    if n < 10 {
        lemma_digit_roundtrip(n);
        assert(dec_rep(n).drop_last() =~= Seq::<char>::empty());
        assert(chars_val(dec_rep(n)) == chars_val(dec_rep(n).drop_last()) * 10 + digit_val(
            dec_rep(n).last(),
        ));
        assert(digit_val(dec_rep(n).last()) == n);
    } else {
        lemma_dec_rep_value(n / 10);
        lemma_digit_roundtrip(n % 10);
        assert(dec_rep(n).drop_last() =~= dec_rep(n / 10));
        assert(dec_rep(n).last() == digit_char(n % 10));
        assert(chars_val(dec_rep(n)) == chars_val(dec_rep(n).drop_last()) * 10 + digit_val(
            dec_rep(n).last(),
        ));
        assert(chars_val(dec_rep(n).drop_last()) == n / 10);
        assert(digit_val(dec_rep(n).last()) == n % 10);
        vstd::arithmetic::div_mod::lemma_fundamental_div_mod(n as int, 10);
        assert((n / 10) * 10 + n % 10 == n);
    }
}

/// The value of a digit string never exceeds the value of the whole string
/// it is a prefix of.
proof fn lemma_chars_val_prefix(s: Seq<char>, i: int)
    requires
        0 <= i <= s.len(),
    ensures
        chars_val(s.take(i)) <= chars_val(s),
    decreases s.len() - i,
{
    if i == s.len() {
        assert(s.take(i) =~= s);
    } else {
        lemma_chars_val_prefix(s, i + 1);
        assert(s.take(i + 1).drop_last() =~= s.take(i));
        assert(s.take(i + 1).last() == s[i]);
    }
}

/// What a string must look like to be the label of the identifier `n`: it
/// starts with `"tab_"` and its remainder is a digit string reading back as
/// `n`.
proof fn lemma_label_shape(s: Seq<char>, n: u64)
    requires
        s == tab_label(n as nat),
    ensures
        s.len() >= 5,
        s[0] == 't' && s[1] == 'a' && s[2] == 'b' && s[3] == '_',
        forall|k: int| 4 <= k < s.len() ==> digit_val(#[trigger] s[k]) < 10,
        chars_val(s.subrange(4, s.len() as int)) == n,
{
    reveal_strlit("tab_");
    lemma_dec_rep_value(n as nat);
    lemma_dec_rep_digits(n as nat);
    assert(s.subrange(4, s.len() as int) =~= dec_rep(n as nat));
    assert forall|k: int| 4 <= k < s.len() implies digit_val(#[trigger] s[k]) < 10 by {
        assert(s[k] == dec_rep(n as nat)[k - 4]);
    }
}

impl TabId {
    /// The textual token for this identifier, `"tab_"` followed by the
    /// counter value in decimal.
    pub fn text(&self) -> (r: String)
        ensures
            r@ == tab_label(self.num as nat),
    {
        let mut s = String::from_str("tab_");
        push_dec(&mut s, self.num);
        s
    }

    /// Parses the textual token of a tab identifier: `Some(id)` exactly when
    /// `s` is `id.text()` for some identifier — `"tab_"` followed by the
    /// canonical decimal form of the counter value.
    pub fn from_text(s: &str) -> (r: Option<TabId>)
        ensures
            r matches Some(id) ==> s@ == tab_label(id.num as nat),
            forall|n: u64| s@ == tab_label(n as nat) ==> r == Some(TabId { num: n }),
    {
        proof {
            reveal_strlit("tab_");
        }
        let len = s.unicode_len();
        if len < 5 {
            proof {
                assert forall|n: u64| s@ != tab_label(n as nat) by {
                    if s@ == tab_label(n as nat) {
                        lemma_label_shape(s@, n);
                    }
                }
            }
            return None;
        }
        if s.get_char(0) != 't' || s.get_char(1) != 'a' || s.get_char(2) != 'b' || s.get_char(3)
            != '_' {
            proof {
                assert forall|n: u64| s@ != tab_label(n as nat) by {
                    if s@ == tab_label(n as nat) {
                        lemma_label_shape(s@, n);
                    }
                }
            }
            return None;
        }
        let mut acc: u64 = 0;
        let mut i: usize = 4;
        while i < len
            invariant
                4 <= i <= len,
                len == s@.len(),
                acc == chars_val(s@.subrange(4, i as int)),
            decreases len - i,
        {
            let c = s.get_char(i);
            let d: u64 = if c == '0' {
                0
            } else if c == '1' {
                1
            } else if c == '2' {
                2
            } else if c == '3' {
                3
            } else if c == '4' {
                4
            } else if c == '5' {
                5
            } else if c == '6' {
                6
            } else if c == '7' {
                7
            } else if c == '8' {
                8
            } else if c == '9' {
                9
            } else {
                proof {
                    assert forall|n: u64| s@ != tab_label(n as nat) by {
                        if s@ == tab_label(n as nat) {
                            lemma_label_shape(s@, n);
                        }
                    }
                }
                return None;
            };
            proof {
                assert(s@.subrange(4, i + 1 as int).drop_last() =~= s@.subrange(4, i as int));
                assert(s@.subrange(4, i + 1 as int).last() == s@[i as int]);
                assert(chars_val(s@.subrange(4, i + 1 as int)) == acc * 10 + d);
                assert forall|n: u64| s@ == tab_label(n as nat) implies acc * 10 + d
                    <= u64::MAX by {
                    lemma_label_shape(s@, n);
                    let digits = s@.subrange(4, len as int);
                    lemma_chars_val_prefix(digits, i + 1 - 4);
                    assert(digits.take(i + 1 - 4) =~= s@.subrange(4, i + 1 as int));
                }
            }
            let stepped = match acc.checked_mul(10) {
                Some(v) => v,
                None => {
                    proof {
                        assert forall|n: u64| s@ != tab_label(n as nat) by {
                            if s@ == tab_label(n as nat) {
                                assert(false);
                            }
                        }
                    }
                    return None;
                },
            };
            let next = match stepped.checked_add(d) {
                Some(v) => v,
                None => {
                    proof {
                        assert forall|n: u64| s@ != tab_label(n as nat) by {
                            if s@ == tab_label(n as nat) {
                                assert(false);
                            }
                        }
                    }
                    return None;
                },
            };
            acc = next;
            i = i + 1;
        }
        let id = TabId { num: acc };
        let label = id.text();
        let given = String::from_str(s);
        let matches_given = label == given;
        proof {
            assert forall|n: u64| s@ == tab_label(n as nat) implies acc == n by {
                lemma_label_shape(s@, n);
                assert(s@.subrange(4, len as int) == s@.subrange(4, s@.len() as int));
            }
        }
        if matches_given {
            Some(id)
        } else {
            proof {
                assert forall|n: u64| s@ != tab_label(n as nat) by {
                    if s@ == tab_label(n as nat) {
                        assert(label@ == tab_label(n as nat));
                        assert(false);
                    }
                }
            }
            None
        }
    }
}

} // verus!
