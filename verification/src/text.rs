//! Small verified building blocks for text output: decimal rendering of a
//! byte-sized integer, repeated spaces, and joining a list of strings with a
//! separator.

use vstd::prelude::*;
use vstd::string::StringExecFns;

verus! {

/// The decimal digit character for `d` (`0 <= d <= 9`).
pub open spec fn digit_char(d: int) -> char {
    if d == 0 {
        '0'
    } else if d == 1 {
        '1'
    } else if d == 2 {
        '2'
    } else if d == 3 {
        '3'
    } else if d == 4 {
        '4'
    } else if d == 5 {
        '5'
    } else if d == 6 {
        '6'
    } else if d == 7 {
        '7'
    } else if d == 8 {
        '8'
    } else {
        '9'
    }
}

/// The decimal rendering of `n` without leading zeros (`0` renders as "0"),
/// as `{}` formatting of an unsigned integer produces it.
pub open spec fn dec_str(n: int) -> Seq<char>
    decreases n,
{
    if n < 10 {
        seq![digit_char(n)]
    } else {
        dec_str(n / 10).push(digit_char(n % 10))
    }
}

/// A one-character string slice holding the decimal digit for `d`.
fn digit_str(d: u8) -> (r: &'static str)
    requires
        d < 10,
    ensures
        r@ == seq![digit_char(d as int)],
{
    proof {
        reveal_strlit("0");
        reveal_strlit("1");
        reveal_strlit("2");
        reveal_strlit("3");
        reveal_strlit("4");
        reveal_strlit("5");
        reveal_strlit("6");
        reveal_strlit("7");
        reveal_strlit("8");
        reveal_strlit("9");
    }
    let r = match d {
        0 => "0",
        1 => "1",
        2 => "2",
        3 => "3",
        4 => "4",
        5 => "5",
        6 => "6",
        7 => "7",
        8 => "8",
        _ => "9",
    };
    proof {
        assert(r@ =~= seq![digit_char(d as int)]);
    }
    r
}

/// Renders `n` in decimal, exactly as `{}` formatting would.
pub fn u8_to_string(n: u8) -> (r: String)
    ensures
        r@ == dec_str(n as int),
{
    if n < 10 {
        let r = String::from_str(digit_str(n));
        proof {
            assert(r@ =~= dec_str(n as int));
        }
        r
    } else if n < 100 {
        let mut r = String::from_str(digit_str(n / 10));
        r.append(digit_str(n % 10));
        proof {
            assert(dec_str(n as int) == dec_str(n as int / 10).push(digit_char(n as int % 10)));
            assert(n as int / 10 < 10);
            assert(r@ =~= dec_str(n as int));
        }
        r
    } else {
        let mut r = String::from_str(digit_str(n / 100));
        r.append(digit_str((n / 10) % 10));
        r.append(digit_str(n % 10));
        proof {
            assert(dec_str(n as int) == dec_str(n as int / 10).push(digit_char(n as int % 10)));
            assert(dec_str(n as int / 10) == dec_str(n as int / 10 / 10).push(
                digit_char(n as int / 10 % 10),
            ));
            assert(n as int / 10 / 10 == n as int / 100);
            assert(n as int / 100 < 10);
            assert(r@ =~= dec_str(n as int));
        }
        r
    }
}

/// The character sequences of a sequence of strings, in order.
pub open spec fn string_views(v: Seq<String>) -> Seq<Seq<char>> {
    v.map_values(|s: String| s@)
}

/// `n` space characters.
pub open spec fn spaces(n: int) -> Seq<char>
    decreases n,
{
    if n <= 0 {
        Seq::empty()
    } else {
        spaces(n - 1).push(' ')
    }
}

/// A string of `n` spaces.
pub fn make_spaces(n: usize) -> (r: String)
    ensures
        r@ == spaces(n as int),
{
    proof {
        reveal_strlit(" ");
    }
    let mut r = String::new();
    let mut i: usize = 0;
    while i < n
        invariant
            i <= n,
            r@ == spaces(i as int),
        decreases n - i,
    {
        r.append(" ");
        proof {
            reveal_strlit(" ");
            assert(r@ =~= spaces(i as int + 1));
        }
        i = i + 1;
    }
    r
}

/// The elements of `v` joined with the separator `sep`: empty for no
/// elements, otherwise the first element with `sep` before each later one.
pub open spec fn spec_join(v: Seq<Seq<char>>, sep: Seq<char>) -> Seq<char>
    decreases v.len(),
{
    if v.len() == 0 {
        Seq::empty()
    } else if v.len() == 1 {
        v[0]
    } else {
        spec_join(v.drop_last(), sep) + sep + v.last()
    }
}

/// Joins the strings with the separator, as slice joining does.
pub fn join_strings(items: &Vec<String>, sep: &str) -> (r: String)
    ensures
        r@ == spec_join(string_views(items@), sep@),
{
    let mut r = String::new();
    let mut i: usize = 0;
    while i < items.len()
        invariant
            i <= items@.len(),
            r@ == spec_join(string_views(items@).take(i as int), sep@),
        decreases items@.len() - i,
    {
        if i > 0 {
            r.append(sep);
        }
        let it = &items[i];
        r.append(it.as_str());
        proof {
            let vs = string_views(items@);
            assert(vs.take(i as int + 1).drop_last() =~= vs.take(i as int));
            assert(vs.take(i as int + 1).last() == vs[i as int]);
            assert(r@ =~= spec_join(vs.take(i as int + 1), sep@));
        }
        i = i + 1;
    }
    proof {
        assert(string_views(items@).take(items@.len() as int) =~= string_views(items@));
    }
    r
}

/// Joining can also be read from the front: the first element, then the
/// separator before the join of the rest.
pub proof fn lemma_spec_join_front(v: Seq<Seq<char>>, sep: Seq<char>)
    requires
        v.len() >= 2,
    ensures
        spec_join(v, sep) == v[0] + sep + spec_join(v.drop_first(), sep),
    decreases v.len(),
{
    if v.len() == 2 {
        assert(v.drop_last() =~= seq![v[0]]);
        assert(v.drop_first() =~= seq![v[1]]);
        assert(spec_join(seq![v[0]], sep) == v[0]);
        assert(spec_join(seq![v[1]], sep) == v[1]);
        assert(v.last() == v[1]);
    } else {
        lemma_spec_join_front(v.drop_last(), sep);
        assert(v.drop_last()[0] == v[0]);
        assert(v.drop_last().drop_first() =~= v.drop_first().drop_last());
        assert(v.drop_first().last() == v.last());
        assert(v.drop_first().len() >= 2);
        assert(spec_join(v.drop_first(), sep) == spec_join(v.drop_first().drop_last(), sep) + sep
            + v.last());
        assert((v[0] + sep + spec_join(v.drop_first().drop_last(), sep)) + sep + v.last() =~= v[0]
            + sep + (spec_join(v.drop_first().drop_last(), sep) + sep + v.last()));
    }
}

/// A list rendered with indentation: `indent` spaces, then the elements
/// joined by a newline followed by the same indentation.
pub open spec fn spec_indented(v: Seq<Seq<char>>, indent: int) -> Seq<char> {
    spaces(indent) + spec_join(v, seq!['\n'] + spaces(indent))
}

/// Formats the strings as one indented list, each value on its own line.
pub fn format_indented(items: &Vec<String>, indent: usize) -> (r: String)
    ensures
        r@ == spec_indented(string_views(items@), indent as int),
{
    proof {
        reveal_strlit("\n");
    }
    let indent_str = make_spaces(indent);
    let mut join_str = String::from_str("\n");
    join_str.append(indent_str.as_str());
    proof {
        assert(join_str@ =~= seq!['\n'] + spaces(indent as int));
    }
    let joined = join_strings(items, join_str.as_str());
    let mut r = indent_str;
    r.append(joined.as_str());
    r
}

} // verus!
