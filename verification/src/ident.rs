use vstd::prelude::*;
use vstd::string::StringExecFns;

verus! {

/// Whether `c` is a lower-case hexadecimal digit.
pub open spec fn is_lower_hex(c: char) -> bool {
    ('0' <= c && c <= '9') || ('a' <= c && c <= 'f')
}

/// The shape of a subscriber id: a version-4 UUID written in the hyphenated
/// lower-case form, 8-4-4-4-12 hexadecimal digits, with the version digit 4.
pub open spec fn is_uuid_v4_text(s: Seq<char>) -> bool {
    &&& s.len() == 36
    &&& forall|i: int|
        0 <= i < 36 ==> if i == 8 || i == 13 || i == 18 || i == 23 {
            s[i] == '-'
        } else {
            is_lower_hex(#[trigger] s[i])
        }
    &&& s[14] == '4'
}

/// A fresh random subscriber id: `uuid::Uuid::new_v4`, written out by its
/// `Display` (the hyphenated lower-case form, uuid's `format_hyphenated`).
/// Which id comes out rests on the operating system's random source, so
/// only its shape is stated; `new_v4` panics only where that source fails.
#[verifier::external_body]
pub(crate) fn fresh_subscriber_id() -> (id: String)
    ensures
        is_uuid_v4_text(id@),
{
    uuid::Uuid::new_v4().to_string()
}

/// `16` to the power `n`.
pub open spec fn pow16(n: nat) -> nat
    decreases n,
{
    if n == 0 {
        1
    } else {
        16 * pow16((n - 1) as nat)
    }
}

/// The lower-case hexadecimal digit for `d` (for `d` in `0..16`).
pub open spec fn hex_char(d: int) -> char {
    if d == 0 {
        '0'
    } else if d == 1 {
        '1'
    } else if d == 2 {
        '2'
    } else if d == 3 {
        '3'
    } else if d == 4 {
        '4'
    } else if d == 5 {
        '5'
    } else if d == 6 {
        '6'
    } else if d == 7 {
        '7'
    } else if d == 8 {
        '8'
    } else if d == 9 {
        '9'
    } else if d == 10 {
        'a'
    } else if d == 11 {
        'b'
    } else if d == 12 {
        'c'
    } else if d == 13 {
        'd'
    } else if d == 14 {
        'e'
    } else {
        'f'
    }
}

/// Which hexadecimal digit of the number (least significant first) a spare
/// id shows at position `p`, or `-1` where the id has a fixed character.
/// The layout keeps the shape of a version-4 UUID: the sixteen digits fill
/// positions 0-7, 9-12, 20-22 and 24.
pub open spec fn spare_digit_index(p: int) -> int {
    if 0 <= p < 8 {
        p
    } else if 9 <= p < 13 {
        p - 1
    } else if 20 <= p < 23 {
        p - 8
    } else if p == 24 {
        15
    } else {
        -1
    }
}

/// The fixed character of a spare id at a position that shows no digit.
pub open spec fn spare_fixed_char(p: int) -> char {
    if p == 8 || p == 13 || p == 18 || p == 23 {
        '-'
    } else if p == 14 {
        '4'
    } else if p == 19 {
        '8'
    } else {
        '0'
    }
}

/// The character at position `p` of the spare id numbered `k`.
pub open spec fn spare_char(k: nat, p: int) -> char {
    let idx = spare_digit_index(p);
    if idx >= 0 {
        hex_char(((k / pow16(idx as nat)) % 16) as int)
    } else {
        spare_fixed_char(p)
    }
}

/// The spare id numbered `k`: a UUID-shaped text that spells out `k` in
/// hexadecimal, used when a randomly drawn id is already taken.
pub open spec fn spare_id(k: nat) -> Seq<char> {
    Seq::new(36, |p: int| spare_char(k, p))
}

/// How many digits a spare id shows before position `p`.
spec fn digits_before(p: int) -> int {
    if p <= 8 {
        p
    } else if p <= 13 {
        p - 1
    } else if p <= 20 {
        12
    } else if p <= 23 {
        p - 8
    } else if p <= 24 {
        15
    } else {
        16
    }
}

/// The one-character text of the hexadecimal digit `d`.
fn hex_text(d: usize) -> (s: &'static str)
    requires
        d < 16,
    ensures
        s@ == seq![hex_char(d as int)],
{
    proof {
        reveal_strlit("0");
        reveal_strlit("1");
        reveal_strlit("2");
        reveal_strlit("3");
        reveal_strlit("4");
        reveal_strlit("5");
        reveal_strlit("6");
        reveal_strlit("7");
        reveal_strlit("8");
        reveal_strlit("9");
        reveal_strlit("a");
        reveal_strlit("b");
        reveal_strlit("c");
        reveal_strlit("d");
        reveal_strlit("e");
        reveal_strlit("f");
    }
    let s = if d == 0 {
        "0"
    } else if d == 1 {
        "1"
    } else if d == 2 {
        "2"
    } else if d == 3 {
        "3"
    } else if d == 4 {
        "4"
    } else if d == 5 {
        "5"
    } else if d == 6 {
        "6"
    } else if d == 7 {
        "7"
    } else if d == 8 {
        "8"
    } else if d == 9 {
        "9"
    } else if d == 10 {
        "a"
    } else if d == 11 {
        "b"
    } else if d == 12 {
        "c"
    } else if d == 13 {
        "d"
    } else if d == 14 {
        "e"
    } else {
        "f"
    };
    assert(s@ =~= seq![hex_char(d as int)]);
    s
}

/// The one-character text of the fixed character at position `p`.
fn fixed_text(p: usize) -> (s: &'static str)
    ensures
        s@ == seq![spare_fixed_char(p as int)],
{
    proof {
        reveal_strlit("-");
        reveal_strlit("4");
        reveal_strlit("8");
        reveal_strlit("0");
    }
    let s = if p == 8 || p == 13 || p == 18 || p == 23 {
        "-"
    } else if p == 14 {
        "4"
    } else if p == 19 {
        "8"
    } else {
        "0"
    };
    assert(s@ =~= seq![spare_fixed_char(p as int)]);
    s
}

/// Writes out the spare id numbered `k`.
pub(crate) fn spare_subscriber_id(k: usize) -> (id: String)
    ensures
        id@ == spare_id(k as nat),
{
    let mut id = String::new();
    let mut rest: usize = k;
    let ghost mut next: nat = 0;
    let mut p: usize = 0;
    proof {
        assert(pow16(0) == 1);
        assert(k as nat / 1 == k as nat);
    }
    while p < 36
        invariant
            p <= 36,
            id@.len() == p,
            forall|q: int| 0 <= q < p ==> id@[q] == #[trigger] spare_char(k as nat, q),
            next == digits_before(p as int),
            rest == k as nat / pow16(next),
        decreases 36 - p,
    {
        let ghost before = id@;
        if p < 8 || (9 <= p && p < 13) || (20 <= p && p < 23) || p == 24 {
            let d = rest % 16;
            id.append(hex_text(d));
            proof {
                assert(spare_digit_index(p as int) == next);
                assert(pow16(next) > 0) by {
                    lemma_pow16_positive(next);
                }
                vstd::arithmetic::div_mod::lemma_div_denominator(k as int, pow16(next) as int, 16);
                assert(pow16(next + 1) == pow16(next) * 16);
                next = next + 1;
            }
            rest = rest / 16;
        } else {
            id.append(fixed_text(p));
        }
        proof {
            assert(id@ =~= before.push(spare_char(k as nat, p as int)));
        }
        p = p + 1;
    }
    assert(id@ =~= spare_id(k as nat));
    id
}

proof fn lemma_pow16_positive(n: nat)
    ensures
        pow16(n) > 0,
    decreases n,
{
    if n > 0 {
        lemma_pow16_positive((n - 1) as nat);
    }
}

/// Every spare id has the shape of a subscriber id.
pub proof fn lemma_spare_id_shape(k: nat)
    ensures
        is_uuid_v4_text(spare_id(k)),
{
    let s = spare_id(k);
    assert forall|i: int| 0 <= i < 36 implies if i == 8 || i == 13 || i == 18 || i == 23 {
        s[i] == '-'
    } else {
        is_lower_hex(#[trigger] s[i])
    } by {
        if spare_digit_index(i) >= 0 {
            lemma_pow16_positive(spare_digit_index(i) as nat);
        }
    }
}

/// The digits a number shows agree from position `t` on, so its quotients
/// by `16^t` agree.
proof fn lemma_quotients_agree(a: nat, b: nat, t: nat)
    requires
        t <= 16,
        a < pow16(16),
        b < pow16(16),
        forall|j: nat| t <= j < 16 ==> #[trigger] ((a / pow16(j)) % 16) == (b / pow16(j)) % 16,
    ensures
        a / pow16(t) == b / pow16(t),
    decreases 16 - t,
{
    lemma_pow16_positive(t);
    if t == 16 {
        vstd::arithmetic::div_mod::lemma_basic_div(a as int, pow16(16) as int);
        vstd::arithmetic::div_mod::lemma_basic_div(b as int, pow16(16) as int);
    } else {
        lemma_quotients_agree(a, b, t + 1);
        let qa = a / pow16(t);
        let qb = b / pow16(t);
        vstd::arithmetic::div_mod::lemma_div_denominator(a as int, pow16(t) as int, 16);
        vstd::arithmetic::div_mod::lemma_div_denominator(b as int, pow16(t) as int, 16);
        assert(pow16(t + 1) == pow16(t) * 16);
        vstd::arithmetic::div_mod::lemma_fundamental_div_mod(qa as int, 16);
        vstd::arithmetic::div_mod::lemma_fundamental_div_mod(qb as int, 16);
    }
}

/// Different numbers below `16^16` have different spare ids.
pub proof fn lemma_spare_id_injective(a: nat, b: nat)
    requires
        a < pow16(16),
        b < pow16(16),
        spare_id(a) == spare_id(b),
    ensures
        a == b,
{
    assert forall|j: nat| 0 <= j < 16 implies #[trigger] ((a / pow16(j)) % 16) == (b / pow16(j)) % 16 by {
        let p: int = if j < 8 {
            j as int
        } else if j < 12 {
            j as int + 1
        } else if j < 15 {
            j as int + 8
        } else {
            24
        };
        assert(spare_digit_index(p) == j);
        assert(0 <= p < 36);
        assert(spare_id(a)[p] == spare_char(a, p));
        assert(spare_id(b)[p] == spare_char(b, p));
        assert(spare_id(a)[p] == spare_id(b)[p]);
        lemma_pow16_positive(j);
        let da = ((a / pow16(j)) % 16) as int;
        let db = ((b / pow16(j)) % 16) as int;
        assert(0 <= da < 16 && 0 <= db < 16);
        assert(spare_char(a, p) == hex_char(da));
        assert(spare_char(b, p) == hex_char(db));
        lemma_hex_char_injective(da, db);
    }
    lemma_quotients_agree(a, b, 0);
    assert(pow16(0) == 1);
    assert(a / 1 == a && b / 1 == b);
}

proof fn lemma_hex_char_injective(x: int, y: int)
    requires
        0 <= x < 16,
        0 <= y < 16,
        hex_char(x) == hex_char(y),
    ensures
        x == y,
{
}

/// Every `usize` is below `16^16`.
pub proof fn lemma_usize_below_pow16(k: usize)
    ensures
        k < pow16(16),
{
    reveal_with_fuel(pow16, 17);
    assert(pow16(16) == 18446744073709551616nat);
}

} // verus!
