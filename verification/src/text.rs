//! Text renderings shared by the interface listings: lower-case hex MAC
//! addresses and separator-joined lists.
use vstd::prelude::*;

verus! {

pub open spec fn hex_digits() -> Seq<char> {
    seq!['0', '1', '2', '3', '4', '5', '6', '7', '8', '9', 'a', 'b', 'c', 'd', 'e', 'f']
}

/// Two lower-case hex digits of a byte.
pub open spec fn hex_byte(b: u8) -> Seq<char> {
    seq![hex_digits()[b as int / 16], hex_digits()[b as int % 16]]
}

/// A MAC address as six two-digit lower-case hex groups separated by colons.
pub open spec fn mac_text(m: Seq<u8>) -> Seq<char> {
    hex_byte(m[0]) + seq![':'] + hex_byte(m[1]) + seq![':'] + hex_byte(m[2]) + seq![':']
        + hex_byte(m[3]) + seq![':'] + hex_byte(m[4]) + seq![':'] + hex_byte(m[5])
}

/// `parts` with `sep` between each two neighbours.
pub open spec fn join(parts: Seq<Seq<char>>, sep: Seq<char>) -> Seq<char>
    decreases parts.len(),
{
    if parts.len() == 0 {
        Seq::empty()
    } else if parts.len() == 1 {
        parts[0]
    } else {
        join(parts.drop_last(), sep) + sep + parts.last()
    }
}

pub open spec fn string_views(parts: Seq<String>) -> Seq<Seq<char>> {
    parts.map_values(|p: String| p@)
}

fn hex_digit_str(d: u8) -> (s: &'static str)
    requires
        d < 16,
    ensures
        s@ == seq![hex_digits()[d as int]],
{
    proof {
        reveal_strlit("0");
        reveal_strlit("1");
        reveal_strlit("2");
        reveal_strlit("3");
        reveal_strlit("4");
        reveal_strlit("5");
        reveal_strlit("6");
        reveal_strlit("7");
        reveal_strlit("8");
        reveal_strlit("9");
        reveal_strlit("a");
        reveal_strlit("b");
        reveal_strlit("c");
        reveal_strlit("d");
        reveal_strlit("e");
        reveal_strlit("f");
    }
    match d {
        0 => "0",
        1 => "1",
        2 => "2",
        3 => "3",
        4 => "4",
        5 => "5",
        6 => "6",
        7 => "7",
        8 => "8",
        9 => "9",
        10 => "a",
        11 => "b",
        12 => "c",
        13 => "d",
        14 => "e",
        _ => "f",
    }
}

fn push_hex_byte(s: &mut String, b: u8)
    ensures
        final(s)@ == old(s)@ + hex_byte(b),
{
    s.append(hex_digit_str(b / 16));
    s.append(hex_digit_str(b % 16));
    assert(final(s)@ =~= old(s)@ + hex_byte(b));
}

/// A MAC address in the `xx:xx:xx:xx:xx:xx` lower-case hex form.
pub fn mac_to_string(mac: &[u8; 6]) -> (s: String)
    ensures
        s@ == mac_text(mac@),
{
    proof {
        reveal_strlit(":");
    }
    let mut s = String::new();
    push_hex_byte(&mut s, mac[0]);
    s.append(":");
    push_hex_byte(&mut s, mac[1]);
    s.append(":");
    push_hex_byte(&mut s, mac[2]);
    s.append(":");
    push_hex_byte(&mut s, mac[3]);
    s.append(":");
    push_hex_byte(&mut s, mac[4]);
    s.append(":");
    push_hex_byte(&mut s, mac[5]);
    assert(s@ =~= mac_text(mac@));
    s
}

/// The parts joined with `sep` between each two neighbours.
pub fn join_strings(parts: &Vec<String>, sep: &str) -> (r: String)
    ensures
        r@ == join(string_views(parts@), sep@),
{
    let ghost views = string_views(parts@);
    let mut r = String::new();
    let mut i: usize = 0;
    while i < parts.len()
        invariant
            0 <= i <= parts@.len(),
            views == string_views(parts@),
            views.len() == parts@.len(),
            r@ == join(views.take(i as int), sep@),
        decreases parts@.len() - i,
    {
        assert(views[i as int] == parts@[i as int]@);
        if i != 0 {
            r.append(sep);
        }
        r.append(parts[i].as_str());
        assert(views.take(i + 1).drop_last() =~= views.take(i as int));
        i = i + 1;
    }
    assert(views.take(parts@.len() as int) =~= views);
    r
}

} // verus!
