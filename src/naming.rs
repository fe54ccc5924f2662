use vstd::prelude::*;

verus! {

/// The character of decimal digit `d`.
pub open spec fn digit_char(d: nat) -> char {
    seq!['0', '1', '2', '3', '4', '5', '6', '7', '8', '9'][d as int]
}

/// The decimal numeral of `n`, without leading zeros.
pub open spec fn decimal(n: nat) -> Seq<char>
    decreases n,
{
    if n < 10 {
        seq![digit_char(n)]
    } else {
        decimal(n / 10).push(digit_char(n % 10))
    }
}

/// The title of the untitled document with identity `id`.
pub open spec fn untitled_title(id: nat) -> Seq<char> {
    seq!['U', 'n', 't', 'i', 't', 'l', 'e', 'd', ' '] + decimal(id)
}

/// The name of the scratch file that holds the autosaved text of the untitled
/// document with identity `id`.
pub open spec fn autosave_file_name(id: nat) -> Seq<char> {
    seq!['a', 'u', 't', 'o', 's', 'a', 'v', 'e', '_'] + decimal(id) + seq!['.', 't', 'x', 't']
}

fn digit_str(d: usize) -> (r: &'static str)
    requires
        d < 10,
    ensures
        r@ == seq![digit_char(d as nat)],
{
    proof {
        reveal_strlit("0");
        reveal_strlit("1");
        reveal_strlit("2");
        reveal_strlit("3");
        reveal_strlit("4");
        reveal_strlit("5");
        reveal_strlit("6");
        reveal_strlit("7");
        reveal_strlit("8");
        reveal_strlit("9");
    }
    let r = match d {
        0 => "0",
        1 => "1",
        2 => "2",
        3 => "3",
        4 => "4",
        5 => "5",
        6 => "6",
        7 => "7",
        8 => "8",
        _ => "9",
    };
    assert(r@ =~= seq![digit_char(d as nat)]);
    r
}

/// Appends the decimal numeral of `n` to `s`.
fn push_decimal(s: &mut String, n: usize)
    ensures
        final(s)@ == old(s)@ + decimal(n as nat),
    decreases n,
{
    if n >= 10 {
        push_decimal(s, n / 10);
    }
    s.append(digit_str(n % 10));
    assert(final(s)@ =~= old(s)@ + decimal(n as nat));
}

/// The title given to a new untitled document.
pub fn untitled_title_for(id: usize) -> (r: String)
    ensures
        r@ == untitled_title(id as nat),
{
    let mut s = String::from_str("Untitled ");
    proof {
        reveal_strlit("Untitled ");
    }
    push_decimal(&mut s, id);
    assert(s@ =~= untitled_title(id as nat));
    s
}

/// The scratch file name under which an untitled document is autosaved.
pub fn autosave_file_name_for(id: usize) -> (r: String)
    ensures
        r@ == autosave_file_name(id as nat),
{
    let mut s = String::from_str("autosave_");
    proof {
        reveal_strlit("autosave_");
        reveal_strlit(".txt");
    }
    push_decimal(&mut s, id);
    s.append(".txt");
    assert(s@ =~= autosave_file_name(id as nat));
    s
}

} // verus!
