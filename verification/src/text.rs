//! Small verified helpers on text: comparing a symbol with a character,
//! joining pieces of text, writing a number in decimal.
use vstd::prelude::*;
use vstd::string::*;

verus! {

/// The characters of `pieces[from..to]`, one piece after the other.
pub open spec fn joined(pieces: Seq<Seq<char>>, from: int, to: int) -> Seq<char>
    decreases to - from,
{
    if from >= to {
        Seq::empty()
    } else {
        joined(pieces, from, to - 1) + pieces[to - 1]
    }
}

/// The views of a sequence of strings.
pub open spec fn texts(pieces: Seq<String>) -> Seq<Seq<char>> {
    Seq::new(pieces.len(), |i: int| pieces[i]@)
}

/// Joining up to `to` and then on to `end` is joining up to `end`.
pub proof fn lemma_joined_split(pieces: Seq<Seq<char>>, from: int, to: int, end: int)
    requires
        from <= to <= end,
    ensures
        joined(pieces, from, end) =~= joined(pieces, from, to) + joined(pieces, to, end),
    decreases end - to,
{
    if to < end {
        lemma_joined_split(pieces, from, to, end - 1);
    }
}

/// Where every piece of a range is one character, the joined range holds
/// these characters, one for each piece.
pub proof fn lemma_joined_singles(pieces: Seq<Seq<char>>, from: int, to: int)
    requires
        0 <= from <= to <= pieces.len(),
        forall|i: int| from <= i < to ==> (#[trigger] pieces[i]).len() == 1,
    ensures
        joined(pieces, from, to).len() == to - from,
        forall|i: int|
            0 <= i < to - from ==> #[trigger] joined(pieces, from, to)[i] == pieces[from + i][0],
    decreases to - from,
{
    if from < to {
        lemma_joined_singles(pieces, from, to - 1);
        assert(pieces[to - 1] =~= seq![pieces[to - 1][0]]);
    }
}

/// Whether `g` is exactly the one character `c`.
pub open spec fn is_one(g: Seq<char>, c: char) -> bool {
    g.len() == 1 && g[0] == c
}

/// Whether `symbol` is exactly the one character `c`.
pub fn is_char(symbol: &str, c: char) -> (b: bool)
    ensures
        b == is_one(symbol@, c),
{
    symbol.unicode_len() == 1 && symbol.get_char(0) == c
}

/// Whether two pieces of text hold the same characters.
pub fn same_text(a: &str, b: &str) -> (r: bool)
    ensures
        r == (a@ == b@),
{
    String::from_str(a) == String::from_str(b)
}

/// The text of `pieces[from..to]` as one string.
pub fn join(pieces: &Vec<String>, from: usize, to: usize) -> (r: String)
    requires
        from <= to <= pieces.len(),
    ensures
        r@ == joined(texts(pieces@), from as int, to as int),
{
    let mut r = String::new();
    let mut i: usize = from;
    while i < to
        invariant
            from <= i <= to <= pieces.len(),
            r@ == joined(texts(pieces@), from as int, i as int),
        decreases to - i,
    {
        r.append(pieces[i].as_str());
        i = i + 1;
    }
    r
}

/// The decimal digit for a value below ten.
pub open spec fn digit(d: nat) -> char {
    if d == 0 {
        '0'
    } else if d == 1 {
        '1'
    } else if d == 2 {
        '2'
    } else if d == 3 {
        '3'
    } else if d == 4 {
        '4'
    } else if d == 5 {
        '5'
    } else if d == 6 {
        '6'
    } else if d == 7 {
        '7'
    } else if d == 8 {
        '8'
    } else {
        '9'
    }
}

/// The decimal numeral of `n`, without leading zeros.
pub open spec fn decimal(n: nat) -> Seq<char>
    decreases n,
{
    if n < 10 {
        seq![digit(n)]
    } else {
        decimal(n / 10).push(digit(n % 10))
    }
}

fn digit_text(d: usize) -> (r: &'static str)
    requires
        d < 10,
    ensures
        r@ == seq![digit(d as nat)],
{
    proof {
        reveal_strlit("0");
        reveal_strlit("1");
        reveal_strlit("2");
        reveal_strlit("3");
        reveal_strlit("4");
        reveal_strlit("5");
        reveal_strlit("6");
        reveal_strlit("7");
        reveal_strlit("8");
        reveal_strlit("9");
    }
    let r = if d == 0 {
        "0"
    } else if d == 1 {
        "1"
    } else if d == 2 {
        "2"
    } else if d == 3 {
        "3"
    } else if d == 4 {
        "4"
    } else if d == 5 {
        "5"
    } else if d == 6 {
        "6"
    } else if d == 7 {
        "7"
    } else if d == 8 {
        "8"
    } else {
        "9"
    };
    assert(r@ =~= seq![digit(d as nat)]);
    r
}

/// Writes `n` in decimal.
pub fn decimal_string(n: usize) -> (r: String)
    ensures
        r@ == decimal(n as nat),
    decreases n,
{
    if n < 10 {
        String::from_str(digit_text(n))
    } else {
        let mut r = decimal_string(n / 10);
        r.append(digit_text(n % 10));
        assert(r@ =~= decimal(n as nat));
        r
    }
}

} // verus!
