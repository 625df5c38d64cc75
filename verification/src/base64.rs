//! Base64 encoding (RFC 4648, standard alphabet, with `=` padding), used
//! for the `bh=` and `b=` tags of DKIM signatures.

use vstd::prelude::*;
use vstd::string::*;

verus! {

/// The base64 character of the 6-bit value `v`.
pub open spec fn base64_char(v: u8) -> char {
    if v < 26 {
        (65 + v) as char
    } else if v < 52 {
        (71 + v) as char
    } else if v < 62 {
        (v - 4) as char
    } else if v == 62 {
        '+'
    } else {
        '/'
    }
}

/// Base64 encoding of `bytes`: each group of three bytes becomes four
/// characters; a final group of one or two bytes is padded with `=`.
pub open spec fn base64(bytes: Seq<u8>) -> Seq<char>
    decreases bytes.len(),
{
    if bytes.len() == 0 {
        Seq::empty()
    } else if bytes.len() == 1 {
        let a = bytes[0];
        seq![base64_char(a / 4), base64_char(((a % 4) * 16) as u8), '=', '=']
    } else if bytes.len() == 2 {
        let a = bytes[0];
        let b = bytes[1];
        seq![base64_char(a / 4), base64_char(((a % 4) * 16 + b / 16) as u8), base64_char(((b % 16) * 4) as u8), '=']
    } else {
        let a = bytes[0];
        let b = bytes[1];
        let c = bytes[2];
        seq![
            base64_char(a / 4),
            base64_char(((a % 4) * 16 + b / 16) as u8),
            base64_char(((b % 16) * 4 + c / 64) as u8),
            base64_char(c % 64),
        ] + base64(bytes.skip(3))
    }
}

/// Appends the base64 character of the 6-bit value `v` to `s`.
fn push_base64_char(s: &mut String, v: u8)
    requires
        v < 64,
    ensures
        final(s)@ == old(s)@ + seq![base64_char(v)],
{
    let lit: &str = match v {
        0 => "A",
        1 => "B",
        2 => "C",
        3 => "D",
        4 => "E",
        5 => "F",
        6 => "G",
        7 => "H",
        8 => "I",
        9 => "J",
        10 => "K",
        11 => "L",
        12 => "M",
        13 => "N",
        14 => "O",
        15 => "P",
        16 => "Q",
        17 => "R",
        18 => "S",
        19 => "T",
        20 => "U",
        21 => "V",
        22 => "W",
        23 => "X",
        24 => "Y",
        25 => "Z",
        26 => "a",
        27 => "b",
        28 => "c",
        29 => "d",
        30 => "e",
        31 => "f",
        32 => "g",
        33 => "h",
        34 => "i",
        35 => "j",
        36 => "k",
        37 => "l",
        38 => "m",
        39 => "n",
        40 => "o",
        41 => "p",
        42 => "q",
        43 => "r",
        44 => "s",
        45 => "t",
        46 => "u",
        47 => "v",
        48 => "w",
        49 => "x",
        50 => "y",
        51 => "z",
        52 => "0",
        53 => "1",
        54 => "2",
        55 => "3",
        56 => "4",
        57 => "5",
        58 => "6",
        59 => "7",
        60 => "8",
        61 => "9",
        62 => "+",
        _ => "/",
    };
    proof {
        reveal_strlit("A");
        reveal_strlit("B");
        reveal_strlit("C");
        reveal_strlit("D");
        reveal_strlit("E");
        reveal_strlit("F");
        reveal_strlit("G");
        reveal_strlit("H");
        reveal_strlit("I");
        reveal_strlit("J");
        reveal_strlit("K");
        reveal_strlit("L");
        reveal_strlit("M");
        reveal_strlit("N");
        reveal_strlit("O");
        reveal_strlit("P");
        reveal_strlit("Q");
        reveal_strlit("R");
        reveal_strlit("S");
        reveal_strlit("T");
        reveal_strlit("U");
        reveal_strlit("V");
        reveal_strlit("W");
        reveal_strlit("X");
        reveal_strlit("Y");
        reveal_strlit("Z");
        reveal_strlit("a");
        reveal_strlit("b");
        reveal_strlit("c");
        reveal_strlit("d");
        reveal_strlit("e");
        reveal_strlit("f");
        reveal_strlit("g");
        reveal_strlit("h");
        reveal_strlit("i");
        reveal_strlit("j");
        reveal_strlit("k");
        reveal_strlit("l");
        reveal_strlit("m");
        reveal_strlit("n");
        reveal_strlit("o");
        reveal_strlit("p");
        reveal_strlit("q");
        reveal_strlit("r");
        reveal_strlit("s");
        reveal_strlit("t");
        reveal_strlit("u");
        reveal_strlit("v");
        reveal_strlit("w");
        reveal_strlit("x");
        reveal_strlit("y");
        reveal_strlit("z");
        reveal_strlit("0");
        reveal_strlit("1");
        reveal_strlit("2");
        reveal_strlit("3");
        reveal_strlit("4");
        reveal_strlit("5");
        reveal_strlit("6");
        reveal_strlit("7");
        reveal_strlit("8");
        reveal_strlit("9");
        reveal_strlit("+");
        reveal_strlit("/");
    }
    s.append(lit);
}

/// Base64 encoding of `bytes` (standard alphabet, padded).
pub fn base64_encode(bytes: &[u8]) -> (text: String)
    ensures
        text@ == base64(bytes@),
{
    let mut text = String::new();
    let len = bytes.len();
    let mut i: usize = 0;
    assert(bytes@.skip(0) =~= bytes@);
    assert(text@ + base64(bytes@) =~= base64(bytes@));
    while i < len
        invariant
            len == bytes@.len(),
            i <= len,
            text@ + base64(bytes@.skip(i as int)) == base64(bytes@),
        decreases len - i,
    {
        let ghost before = text@;
        let rest = len - i;
        let a = bytes[i];
        if rest == 1 {
            push_base64_char(&mut text, a / 4);
            push_base64_char(&mut text, (a % 4) * 16);
            text.append("==");
            proof {
                reveal_strlit("==");
                assert(bytes@.skip(i as int + 1) =~= Seq::<u8>::empty());
            }
            i = i + 1;
        } else if rest == 2 {
            let b = bytes[i + 1];
            push_base64_char(&mut text, a / 4);
            push_base64_char(&mut text, (a % 4) * 16 + b / 16);
            push_base64_char(&mut text, (b % 16) * 4);
            text.append("=");
            proof {
                reveal_strlit("=");
                assert(bytes@.skip(i as int + 2) =~= Seq::<u8>::empty());
            }
            i = i + 2;
        } else {
            let b = bytes[i + 1];
            let c = bytes[i + 2];
            push_base64_char(&mut text, a / 4);
            push_base64_char(&mut text, (a % 4) * 16 + b / 16);
            push_base64_char(&mut text, (b % 16) * 4 + c / 64);
            push_base64_char(&mut text, c % 64);
            assert(bytes@.skip(i as int).skip(3) =~= bytes@.skip(i as int + 3));
            i = i + 3;
        }
        assert(text@ + base64(bytes@.skip(i as int)) == base64(bytes@));
    }
    assert(bytes@.skip(len as int) =~= Seq::<u8>::empty());
    assert(text@ + Seq::<char>::empty() =~= text@);
    text
}

} // verus!
