use vstd::prelude::*;
use vstd::string::StringExecFns;

verus! {

/// The decimal digit character for `d`, 0 through 9.
pub open spec fn dec_digit(d: int) -> char {
    if d == 0 {
        '0'
    } else if d == 1 {
        '1'
    } else if d == 2 {
        '2'
    } else if d == 3 {
        '3'
    } else if d == 4 {
        '4'
    } else if d == 5 {
        '5'
    } else if d == 6 {
        '6'
    } else if d == 7 {
        '7'
    } else if d == 8 {
        '8'
    } else {
        '9'
    }
}

/// The lowercase hexadecimal digit character for `d`, 0 through 15.
pub open spec fn hex_digit(d: int) -> char {
    if d < 10 {
        dec_digit(d)
    } else if d == 10 {
        'a'
    } else if d == 11 {
        'b'
    } else if d == 12 {
        'c'
    } else if d == 13 {
        'd'
    } else if d == 14 {
        'e'
    } else {
        'f'
    }
}

/// The decimal numeral of `n`, most significant digit first, without leading
/// zeros.
pub open spec fn dec_of(n: int) -> Seq<char>
    recommends
        n >= 0,
    decreases n,
{
    if n < 10 {
        seq![dec_digit(n)]
    } else {
        dec_of(n / 10).push(dec_digit(n % 10))
    }
}

/// The lowercase hexadecimal numeral of `n`, most significant digit first,
/// without leading zeros.
pub open spec fn hex_of(n: int) -> Seq<char>
    recommends
        n >= 0,
    decreases n,
{
    if n < 16 {
        seq![hex_digit(n)]
    } else {
        hex_of(n / 16).push(hex_digit(n % 16))
    }
}

/// The dotted-decimal text of an IPv4 address with octets `a.b.c.d`.
pub open spec fn ipv4_text(a: u8, b: u8, c: u8, d: u8) -> Seq<char> {
    dec_of(a as int) + seq!['.'] + dec_of(b as int) + seq!['.'] + dec_of(c as int) + seq!['.']
        + dec_of(d as int)
}

/// The text of IPv6 groups joined by colons, each group in lowercase
/// hexadecimal without leading zeros (the uncompressed textual form of an
/// address when given all eight groups).
pub open spec fn ipv6_text(gs: Seq<u16>) -> Seq<char>
    decreases gs.len(),
{
    if gs.len() == 0 {
        Seq::<char>::empty()
    } else if gs.len() == 1 {
        hex_of(gs[0] as int)
    } else {
        hex_of(gs[0] as int) + seq![':'] + ipv6_text(gs.skip(1))
    }
}

fn push_dec_digit(s: &mut String, d: u8)
    requires
        d < 10,
    ensures
        final(s)@ == old(s)@ + seq![dec_digit(d as int)],
{
    match d {
        0 => {
            s.append("0");
            proof {
                reveal_strlit("0");
                assert(s@ =~= old(s)@ + seq![dec_digit(d as int)]);
            }
        },
        1 => {
            s.append("1");
            proof {
                reveal_strlit("1");
                assert(s@ =~= old(s)@ + seq![dec_digit(d as int)]);
            }
        },
        2 => {
            s.append("2");
            proof {
                reveal_strlit("2");
                assert(s@ =~= old(s)@ + seq![dec_digit(d as int)]);
            }
        },
        3 => {
            s.append("3");
            proof {
                reveal_strlit("3");
                assert(s@ =~= old(s)@ + seq![dec_digit(d as int)]);
            }
        },
        4 => {
            s.append("4");
            proof {
                reveal_strlit("4");
                assert(s@ =~= old(s)@ + seq![dec_digit(d as int)]);
            }
        },
        5 => {
            s.append("5");
            proof {
                reveal_strlit("5");
                assert(s@ =~= old(s)@ + seq![dec_digit(d as int)]);
            }
        },
        6 => {
            s.append("6");
            proof {
                reveal_strlit("6");
                assert(s@ =~= old(s)@ + seq![dec_digit(d as int)]);
            }
        },
        7 => {
            s.append("7");
            proof {
                reveal_strlit("7");
                assert(s@ =~= old(s)@ + seq![dec_digit(d as int)]);
            }
        },
        8 => {
            s.append("8");
            proof {
                reveal_strlit("8");
                assert(s@ =~= old(s)@ + seq![dec_digit(d as int)]);
            }
        },
        _ => {
            s.append("9");
            proof {
                reveal_strlit("9");
                assert(s@ =~= old(s)@ + seq![dec_digit(d as int)]);
            }
        },
    }
}

fn push_hex_digit(s: &mut String, d: u8)
    requires
        d < 16,
    ensures
        final(s)@ == old(s)@ + seq![hex_digit(d as int)],
{
    if d < 10 {
        push_dec_digit(s, d);
    } else {
        match d {
            10 => {
                s.append("a");
                proof {
                    reveal_strlit("a");
                    assert(s@ =~= old(s)@ + seq![hex_digit(d as int)]);
                }
            },
            11 => {
                s.append("b");
                proof {
                    reveal_strlit("b");
                    assert(s@ =~= old(s)@ + seq![hex_digit(d as int)]);
                }
            },
            12 => {
                s.append("c");
                proof {
                    reveal_strlit("c");
                    assert(s@ =~= old(s)@ + seq![hex_digit(d as int)]);
                }
            },
            13 => {
                s.append("d");
                proof {
                    reveal_strlit("d");
                    assert(s@ =~= old(s)@ + seq![hex_digit(d as int)]);
                }
            },
            14 => {
                s.append("e");
                proof {
                    reveal_strlit("e");
                    assert(s@ =~= old(s)@ + seq![hex_digit(d as int)]);
                }
            },
            _ => {
                s.append("f");
                proof {
                    reveal_strlit("f");
                    assert(s@ =~= old(s)@ + seq![hex_digit(d as int)]);
                }
            },
        }
    }
}

/// Append the decimal numeral of `n` to `s`.
pub fn push_dec_u128(s: &mut String, n: u128)
    ensures
        final(s)@ == old(s)@ + dec_of(n as int),
    decreases n,
{
    if n >= 10 {
        push_dec_u128(s, n / 10);
    }
    push_dec_digit(s, (n % 10) as u8);
    proof {
        assert(s@ =~= old(s)@ + dec_of(n as int));
    }
}

/// Append the lowercase hexadecimal numeral of `n` to `s`.
pub fn push_hex_u16(s: &mut String, n: u16)
    ensures
        final(s)@ == old(s)@ + hex_of(n as int),
    decreases n,
{
    if n >= 16 {
        push_hex_u16(s, n / 16);
    }
    push_hex_digit(s, (n % 16) as u8);
    proof {
        assert(s@ =~= old(s)@ + hex_of(n as int));
    }
}

/// Append one dot to `s`.
pub fn push_dot(s: &mut String)
    ensures
        final(s)@ == old(s)@ + seq!['.'],
{
    s.append(".");
    proof {
        reveal_strlit(".");
        assert(s@ =~= old(s)@ + seq!['.']);
    }
}

/// Append one colon to `s`.
pub fn push_colon(s: &mut String)
    ensures
        final(s)@ == old(s)@ + seq![':'],
{
    s.append(":");
    proof {
        reveal_strlit(":");
        assert(s@ =~= old(s)@ + seq![':']);
    }
}

/// Append one comma to `s`.
pub fn push_comma(s: &mut String)
    ensures
        final(s)@ == old(s)@ + seq![','],
{
    s.append(",");
    proof {
        reveal_strlit(",");
        assert(s@ =~= old(s)@ + seq![',']);
    }
}

/// Append one space to `s`.
pub fn push_space(s: &mut String)
    ensures
        final(s)@ == old(s)@ + seq![' '],
{
    s.append(" ");
    proof {
        reveal_strlit(" ");
        assert(s@ =~= old(s)@ + seq![' ']);
    }
}

/// Append one line break to `s`.
pub fn push_newline(s: &mut String)
    ensures
        final(s)@ == old(s)@ + seq!['\n'],
{
    s.append("\n");
    proof {
        reveal_strlit("\n");
        assert(s@ =~= old(s)@ + seq!['\n']);
    }
}

/// The dotted-decimal text of the IPv4 address `a.b.c.d`.
pub fn format_ipv4(a: u8, b: u8, c: u8, d: u8) -> (r: String)
    ensures
        r@ == ipv4_text(a, b, c, d),
{
    let mut s = String::new();
    push_dec_u128(&mut s, a as u128);
    push_dot(&mut s);
    push_dec_u128(&mut s, b as u128);
    push_dot(&mut s);
    push_dec_u128(&mut s, c as u128);
    push_dot(&mut s);
    push_dec_u128(&mut s, d as u128);
    proof {
        assert(s@ =~= ipv4_text(a, b, c, d));
    }
    s
}

fn push_ipv6_from(s: &mut String, gs: &Vec<u16>, i: usize)
    requires
        i <= gs@.len(),
    ensures
        final(s)@ == old(s)@ + ipv6_text(gs@.skip(i as int)),
    decreases gs@.len() - i,
{
    if i == gs.len() {
        proof {
            assert(gs@.skip(i as int) =~= Seq::<u16>::empty());
            assert(s@ =~= old(s)@ + ipv6_text(gs@.skip(i as int)));
        }
    } else if i + 1 == gs.len() {
        push_hex_u16(s, gs[i]);
        proof {
            assert(gs@.skip(i as int).len() == 1);
            assert(gs@.skip(i as int)[0] == gs@[i as int]);
            assert(s@ =~= old(s)@ + ipv6_text(gs@.skip(i as int)));
        }
    } else {
        push_hex_u16(s, gs[i]);
        push_colon(s);
        push_ipv6_from(s, gs, i + 1);
        proof {
            assert(gs@.skip(i as int)[0] == gs@[i as int]);
            assert(gs@.skip(i as int).skip(1) =~= gs@.skip(i as int + 1));
            assert(s@ =~= old(s)@ + ipv6_text(gs@.skip(i as int)));
        }
    }
}

/// The colon-separated text of the eight 16-bit groups of an IPv6 address.
pub fn format_ipv6(gs: &Vec<u16>) -> (r: String)
    requires
        gs@.len() == 8,
    ensures
        r@ == ipv6_text(gs@),
{
    let mut s = String::new();
    push_ipv6_from(&mut s, gs, 0);
    proof {
        assert(gs@.skip(0) =~= gs@);
        assert(s@ =~= ipv6_text(gs@));
    }
    s
}

} // verus!
