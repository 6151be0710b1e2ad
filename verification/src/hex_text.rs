use vstd::prelude::*;

verus! {

/// The lower-case hexadecimal digit of a value below 16.
pub open spec fn hex_char(d: nat) -> char {
    if d == 0 {
        '0'
    } else if d == 1 {
        '1'
    } else if d == 2 {
        '2'
    } else if d == 3 {
        '3'
    } else if d == 4 {
        '4'
    } else if d == 5 {
        '5'
    } else if d == 6 {
        '6'
    } else if d == 7 {
        '7'
    } else if d == 8 {
        '8'
    } else if d == 9 {
        '9'
    } else if d == 10 {
        'a'
    } else if d == 11 {
        'b'
    } else if d == 12 {
        'c'
    } else if d == 13 {
        'd'
    } else if d == 14 {
        'e'
    } else {
        'f'
    }
}

fn hex_digit_str(d: u8) -> (s: &'static str)
    requires
        d < 16,
    ensures
        s@ == seq![hex_char(d as nat)],
{
    if d == 0 {
        proof {
            reveal_strlit("0");
        }
        "0"
    } else if d == 1 {
        proof {
            reveal_strlit("1");
        }
        "1"
    } else if d == 2 {
        proof {
            reveal_strlit("2");
        }
        "2"
    } else if d == 3 {
        proof {
            reveal_strlit("3");
        }
        "3"
    } else if d == 4 {
        proof {
            reveal_strlit("4");
        }
        "4"
    } else if d == 5 {
        proof {
            reveal_strlit("5");
        }
        "5"
    } else if d == 6 {
        proof {
            reveal_strlit("6");
        }
        "6"
    } else if d == 7 {
        proof {
            reveal_strlit("7");
        }
        "7"
    } else if d == 8 {
        proof {
            reveal_strlit("8");
        }
        "8"
    } else if d == 9 {
        proof {
            reveal_strlit("9");
        }
        "9"
    } else if d == 10 {
        proof {
            reveal_strlit("a");
        }
        "a"
    } else if d == 11 {
        proof {
            reveal_strlit("b");
        }
        "b"
    } else if d == 12 {
        proof {
            reveal_strlit("c");
        }
        "c"
    } else if d == 13 {
        proof {
            reveal_strlit("d");
        }
        "d"
    } else if d == 14 {
        proof {
            reveal_strlit("e");
        }
        "e"
    } else {
        proof {
            reveal_strlit("f");
        }
        "f"
    }
}

/// The two hexadecimal digits of a byte, the high half first.
pub open spec fn byte_hex(b: u8) -> Seq<char> {
    seq![hex_char((b / 16) as nat), hex_char((b % 16) as nat)]
}

/// The hexadecimal text of bytes read from the last to the first, as
/// bitcoin writes transaction ids and block hashes.
pub open spec fn hex_of_reversed(bytes: Seq<u8>) -> Seq<char>
    decreases bytes.len(),
{
    if bytes.len() == 0 {
        Seq::empty()
    } else {
        byte_hex(bytes.last()) + hex_of_reversed(bytes.drop_last())
    }
}

/// Appends the hexadecimal text of a hash, its bytes read from the last to
/// the first.
pub fn push_hex_reversed(s: &mut String, bytes: &[u8; 32])
    ensures
        final(s)@ == old(s)@ + hex_of_reversed(bytes@),
{
    let ghost start = s@;
    assert(bytes@.subrange(0, 32) =~= bytes@);
    let mut k: usize = 32;
    while k > 0
        invariant
            0 <= k <= 32,
            bytes@.len() == 32,
            start + hex_of_reversed(bytes@) == s@ + hex_of_reversed(bytes@.subrange(0, k as int)),
        decreases k,
    {
        let b = bytes[k - 1];
        proof {
            let pre = bytes@.subrange(0, k as int);
            assert(pre.drop_last() =~= bytes@.subrange(0, k - 1));
            assert(pre.last() == b);
        }
        let ghost before = s@;
        s.append(hex_digit_str(b / 16));
        s.append(hex_digit_str(b % 16));
        proof {
            assert(s@ =~= before + byte_hex(b));
            assert(before + hex_of_reversed(bytes@.subrange(0, k as int)) =~= s@ + hex_of_reversed(
                bytes@.subrange(0, k - 1),
            ));
        }
        k = k - 1;
    }
    assert(bytes@.subrange(0, 0) =~= Seq::<u8>::empty());
    assert(s@ =~= start + hex_of_reversed(bytes@));
}

/// The hexadecimal text of bytes, from the first to the last.
pub open spec fn hex_of(bytes: Seq<u8>) -> Seq<char>
    decreases bytes.len(),
{
    if bytes.len() == 0 {
        Seq::empty()
    } else {
        hex_of(bytes.drop_last()) + byte_hex(bytes.last())
    }
}

/// The hexadecimal text of 32 bytes, from the first to the last.
pub fn hex_of_bytes(bytes: &[u8; 32]) -> (r: String)
    ensures
        r@ == hex_of(bytes@),
{
    let mut s = String::new();
    let mut k: usize = 0;
    while k < 32
        invariant
            0 <= k <= 32,
            bytes@.len() == 32,
            s@ == hex_of(bytes@.subrange(0, k as int)),
        decreases 32 - k,
    {
        let b = bytes[k];
        proof {
            let pre = bytes@.subrange(0, k + 1);
            assert(pre.drop_last() =~= bytes@.subrange(0, k as int));
            assert(pre.last() == b);
        }
        let ghost before = s@;
        s.append(hex_digit_str(b / 16));
        s.append(hex_digit_str(b % 16));
        proof {
            assert(s@ =~= before + byte_hex(b));
        }
        k = k + 1;
    }
    assert(bytes@.subrange(0, 32) =~= bytes@);
    s
}

} // verus!
