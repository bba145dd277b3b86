//! Entry identifiers: the hexadecimal milliseconds-since-epoch timestamp
//! concatenated with a four-digit hexadecimal salt. The formatting is exact
//! and injective, so two ids can only collide when clock reading and salt
//! both coincide.

use vstd::prelude::*;

verus! {

/// The lower-case hexadecimal digit for `d`, `0 <= d < 16`.
pub open spec fn hex_digit(d: int) -> char {
    if d == 0 {
        '0'
    } else if d == 1 {
        '1'
    } else if d == 2 {
        '2'
    } else if d == 3 {
        '3'
    } else if d == 4 {
        '4'
    } else if d == 5 {
        '5'
    } else if d == 6 {
        '6'
    } else if d == 7 {
        '7'
    } else if d == 8 {
        '8'
    } else if d == 9 {
        '9'
    } else if d == 10 {
        'a'
    } else if d == 11 {
        'b'
    } else if d == 12 {
        'c'
    } else if d == 13 {
        'd'
    } else if d == 14 {
        'e'
    } else {
        'f'
    }
}

/// The hexadecimal digits of `n`, without leading zeros (`0` is `"0"`).
pub open spec fn hex_of(n: nat) -> Seq<char>
    decreases n,
{
    if n < 16 {
        seq![hex_digit(n as int)]
    } else {
        hex_of(n / 16) + seq![hex_digit((n % 16) as int)]
    }
}

/// The four hexadecimal digits of `n < 0x10000`, zero-padded.
pub open spec fn hex4_of(n: nat) -> Seq<char> {
    seq![
        hex_digit(((n / 4096) % 16) as int),
        hex_digit(((n / 256) % 16) as int),
        hex_digit(((n / 16) % 16) as int),
        hex_digit((n % 16) as int),
    ]
}

/// The id formed from a millisecond timestamp and a 16-bit salt.
pub open spec fn entry_id_spec(millis: u64, salt: u16) -> Seq<char> {
    hex_of(millis as nat) + hex4_of(salt as nat)
}

/// The lower-case hexadecimal digit for `d`.
fn hex_digit_str(d: u64) -> (r: &'static str)
    requires
        d < 16,
    ensures
        r@ == seq![hex_digit(d as int)],
{
    let r = if d == 0 {
        "0"
    } else if d == 1 {
        "1"
    } else if d == 2 {
        "2"
    } else if d == 3 {
        "3"
    } else if d == 4 {
        "4"
    } else if d == 5 {
        "5"
    } else if d == 6 {
        "6"
    } else if d == 7 {
        "7"
    } else if d == 8 {
        "8"
    } else if d == 9 {
        "9"
    } else if d == 10 {
        "a"
    } else if d == 11 {
        "b"
    } else if d == 12 {
        "c"
    } else if d == 13 {
        "d"
    } else if d == 14 {
        "e"
    } else {
        "f"
    };
    proof {
        reveal_strlit("0");
        reveal_strlit("1");
        reveal_strlit("2");
        reveal_strlit("3");
        reveal_strlit("4");
        reveal_strlit("5");
        reveal_strlit("6");
        reveal_strlit("7");
        reveal_strlit("8");
        reveal_strlit("9");
        reveal_strlit("a");
        reveal_strlit("b");
        reveal_strlit("c");
        reveal_strlit("d");
        reveal_strlit("e");
        reveal_strlit("f");
        assert(r@ =~= seq![hex_digit(d as int)]);
    }
    r
}

/// Formats `n` in lower-case hexadecimal without leading zeros.
pub fn hex_string(n: u64) -> (r: String)
    ensures
        r@ == hex_of(n as nat),
    decreases n,
{
    if n < 16 {
        String::from_str(hex_digit_str(n))
    } else {
        let mut r = hex_string(n / 16);
        r.append(hex_digit_str(n % 16));
        r
    }
}

/// Builds an entry id from the clock reading and a process-dependent salt,
/// as the store names new entries: the hexadecimal milliseconds followed by
/// four hexadecimal digits of `(nanos ^ pid) & 0xFFFF`.
pub fn generate_entry_id(millis: u64, nanos: u32, pid: u32) -> (r: String)
    ensures
        r@ == entry_id_spec(millis, ((nanos ^ pid) & 0xFFFF) as u16),
{
    let salt: u32 = (nanos ^ pid) & 0xFFFF;
    proof {
        assert(salt < 0x10000) by (bit_vector)
            requires
                salt == (nanos ^ pid) & 0xFFFF,
        ;
    }
    let salt16: u16 = salt as u16;
    let mut r = hex_string(millis);
    let d3 = (salt16 / 4096) % 16;
    let d2 = (salt16 / 256) % 16;
    let d1 = (salt16 / 16) % 16;
    let d0 = salt16 % 16;
    r.append(hex_digit_str(d3 as u64));
    r.append(hex_digit_str(d2 as u64));
    r.append(hex_digit_str(d1 as u64));
    r.append(hex_digit_str(d0 as u64));
    proof {
        assert(r@ =~= entry_id_spec(millis, salt16));
    }
    r
}

proof fn lemma_hex_digit_injective(a: int, b: int)
    requires
        0 <= a < 16,
        0 <= b < 16,
        hex_digit(a) == hex_digit(b),
    ensures
        a == b,
{
}

proof fn lemma_hex_of_len(n: nat)
    ensures
        hex_of(n).len() >= 1,
    decreases n,
{
    if n >= 16 {
        lemma_hex_of_len(n / 16);
    }
}

proof fn lemma_hex_of_injective(a: nat, b: nat)
    requires
        hex_of(a) == hex_of(b),
    ensures
        a == b,
    decreases a + b,
{
    if a < 16 && b < 16 {
        assert(hex_of(a)[0] == hex_digit(a as int));
        assert(hex_of(b)[0] == hex_digit(b as int));
        lemma_hex_digit_injective(a as int, b as int);
    } else if a < 16 {
        lemma_hex_of_len(b / 16);
        assert(hex_of(b).len() >= 2);
    } else if b < 16 {
        lemma_hex_of_len(a / 16);
        assert(hex_of(a).len() >= 2);
    } else {
        let ha = hex_of(a / 16);
        let hb = hex_of(b / 16);
        lemma_hex_of_len(a / 16);
        lemma_hex_of_len(b / 16);
        assert(hex_of(a).last() == hex_digit((a % 16) as int));
        assert(hex_of(b).last() == hex_digit((b % 16) as int));
        lemma_hex_digit_injective((a % 16) as int, (b % 16) as int);
        assert(ha =~= hex_of(a).drop_last());
        assert(hb =~= hex_of(b).drop_last());
        lemma_hex_of_injective(a / 16, b / 16);
    }
}

/// Ids do not collide across distinct inputs: two generated ids are equal
/// only when both the millisecond reading and the salt coincide. This is the
/// formatting half of id uniqueness; distinctness of the inputs themselves
/// rests on the clock.
pub proof fn lemma_entry_id_injective(m1: u64, s1: u16, m2: u64, s2: u16)
    requires
        entry_id_spec(m1, s1) == entry_id_spec(m2, s2),
    ensures
        m1 == m2,
        s1 == s2,
{
    let h1 = hex_of(m1 as nat);
    let h2 = hex_of(m2 as nat);
    let f1 = hex4_of(s1 as nat);
    let f2 = hex4_of(s2 as nat);
    assert((h1 + f1).len() == h1.len() + 4);
    assert((h2 + f2).len() == h2.len() + 4);
    assert(h1.len() == h2.len());
    assert forall|i: int| 0 <= i < h1.len() implies h1[i] == h2[i] by {
        assert((h1 + f1)[i] == h1[i]);
        assert((h2 + f2)[i] == h2[i]);
    }
    assert(h1 =~= h2);
    lemma_hex_of_injective(m1 as nat, m2 as nat);
    assert forall|i: int| 0 <= i < 4 implies f1[i] == f2[i] by {
        assert((h1 + f1)[h1.len() + i] == f1[i]);
        assert((h2 + f2)[h2.len() + i] == f2[i]);
    }
    let n1 = s1 as nat;
    let n2 = s2 as nat;
    lemma_hex_digit_injective(((n1 / 4096) % 16) as int, ((n2 / 4096) % 16) as int);
    lemma_hex_digit_injective(((n1 / 256) % 16) as int, ((n2 / 256) % 16) as int);
    lemma_hex_digit_injective(((n1 / 16) % 16) as int, ((n2 / 16) % 16) as int);
    lemma_hex_digit_injective((n1 % 16) as int, (n2 % 16) as int);
    assert(n1 < 0x10000 && n2 < 0x10000);
    assert(n1 == ((n1 / 4096) % 16) * 4096 + ((n1 / 256) % 16) * 256 + ((n1 / 16) % 16) * 16 + n1
        % 16) by (nonlinear_arith)
        requires
            n1 < 0x10000,
    ;
    assert(n2 == ((n2 / 4096) % 16) * 4096 + ((n2 / 256) % 16) * 256 + ((n2 / 16) % 16) * 16 + n2
        % 16) by (nonlinear_arith)
        requires
            n2 < 0x10000,
    ;
}

} // verus!
