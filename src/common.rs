//! Pieces shared by the client and the server: control commands typed at
//! the prompt, and placeholder formatting.
use vstd::prelude::*;
use vstd::string::to_string_from_display_ensures;
use crate::text::{
    append_chars, chars_of, contains, contains_chars, matches_at, replace_all, replace_all_chars,
    replace_first, replace_first_chars, starts_with, string_of, string_views,
};

verus! {

/// A control command, handled locally rather than sent to the server.
#[derive(Debug, Clone, Copy, PartialEq, Eq, Structural)]
pub enum InputAction {
    Quit,
    Help,
    ListConnections,
}

/// A token selects a command when it contains the long form or equals the short one.
pub open spec fn selects(token: Seq<char>, long: Seq<char>, short: Seq<char>) -> bool {
    contains(token, long) || token == short
}

/// The control command that the first token names, checked in the order
/// quit (`q`), help (`h`), list-connections (`lc`).
pub open spec fn input_action_of(args: Seq<Seq<char>>) -> Option<InputAction> {
    if args.len() == 0 {
        None
    } else if selects(args[0], "quit"@, "q"@) {
        Some(InputAction::Quit)
    } else if selects(args[0], "help"@, "h"@) {
        Some(InputAction::Help)
    } else if selects(args[0], "list-connections"@, "lc"@) {
        Some(InputAction::ListConnections)
    } else {
        None
    }
}

/// Whether `token` contains `long` or equals `short`.
fn token_selects(token: &String, long: &str, short: &str) -> (r: bool)
    ensures
        r == selects(token@, long@, short@),
{
    let t = chars_of(token.as_str());
    if contains_chars(t.as_slice(), chars_of(long).as_slice()) {
        return true;
    }
    *token == short.to_owned()
}

/// The control command named by the first of `args`, if any.
pub fn parse_input_action(args: &[String]) -> (r: Option<InputAction>)
    ensures
        r == input_action_of(string_views(args@)),
{
    if args.len() == 0 {
        return None;
    }
    let first = &args[0];
    assert(string_views(args@)[0] == first@);
    if token_selects(first, "quit", "q") {
        Some(InputAction::Quit)
    } else if token_selects(first, "help", "h") {
        Some(InputAction::Help)
    } else if token_selects(first, "list-connections", "lc") {
        Some(InputAction::ListConnections)
    } else {
        None
    }
}

/// The decimal digit for `d`.
pub open spec fn digit(d: nat) -> char {
    seq!['0', '1', '2', '3', '4', '5', '6', '7', '8', '9'][d as int]
}

/// The decimal numeral of `n`.
pub open spec fn decimal(n: nat) -> Seq<char>
    decreases n,
{
    if n < 10 {
        seq![digit(n)]
    } else {
        decimal(n / 10).push(digit(n % 10))
    }
}

/// Appends the decimal numeral of `n`.
fn push_decimal(out: &mut Vec<char>, n: usize)
    ensures
        final(out)@ == old(out)@ + decimal(n as nat),
    decreases n,
{
    if n >= 10 {
        push_decimal(out, n / 10);
    }
    let digits = ['0', '1', '2', '3', '4', '5', '6', '7', '8', '9'];
    let ghost mid = out@;
    out.push(digits[n % 10]);
    assert(digits@ =~= seq!['0', '1', '2', '3', '4', '5', '6', '7', '8', '9']);
    if n >= 10 {
        assert(out@ =~= old(out)@ + decimal(n as nat));
    } else {
        assert(n % 10 == n);
        assert(out@ =~= old(out)@ + decimal(n as nat));
    }
}

/// The indexed placeholder `{i}`.
pub open spec fn placeholder(i: nat) -> Seq<char> {
    seq!['{'] + decimal(i) + seq!['}']
}

/// Formatting with the arguments in turn: for argument `i`, every `{i}` is
/// replaced by it, then the first remaining `{}`.
pub open spec fn format_spec(fmt: Seq<char>, args: Seq<Seq<char>>) -> Seq<char>
    decreases args.len(),
{
    if args.len() == 0 {
        fmt
    } else {
        let i = (args.len() - 1) as nat;
        replace_first(
            replace_all(format_spec(fmt, args.drop_last()), placeholder(i), args.last()),
            seq!['{', '}'],
            args.last(),
        )
    }
}

/// Fills `{i}` and `{}` placeholders of `fmt` from `args`, argument by argument.
pub fn format_strings(fmt: &str, args: &Vec<String>) -> (r: String)
    ensures
        r@ == format_spec(fmt@, string_views(args@)),
{
    let mut s = chars_of(fmt);
    let plain = vec!['{', '}'];
    let mut i: usize = 0;
    assert(string_views(args@).subrange(0, 0) =~= Seq::<Seq<char>>::empty());
    while i < args.len()
        invariant
            i <= args@.len(),
            plain@ == seq!['{', '}'],
            s@ == format_spec(fmt@, string_views(args@).subrange(0, i as int)),
        decreases args.len() - i,
    {
        let ghost sub = string_views(args@).subrange(0, i + 1);
        assert(sub.drop_last() =~= string_views(args@).subrange(0, i as int));
        assert(sub.last() == args@[i as int]@);
        let arg = chars_of(args[i].as_str());
        let mut ph: Vec<char> = Vec::new();
        ph.push('{');
        push_decimal(&mut ph, i);
        ph.push('}');
        assert(ph@ =~= placeholder(i as nat));
        let replaced = replace_all_chars(s.as_slice(), ph.as_slice(), arg.as_slice());
        s = replace_first_chars(replaced.as_slice(), plain.as_slice(), arg.as_slice());
        i = i + 1;
    }
    assert(string_views(args@).subrange(0, args@.len() as int) =~= string_views(args@));
    string_of(s.as_slice())
}

/// Formats `fmt` with the display form of each argument, as `format_strings` does.
pub fn format_vec<T: std::fmt::Display>(fmt_str: &str, args: &[T]) -> (r: String)
    ensures
        exists|strs: Seq<String>|
            {
                &&& strs.len() == args@.len()
                &&& forall|i: int|
                    0 <= i < args@.len() ==> to_string_from_display_ensures::<T>(
                        &args@[i],
                        #[trigger] strs[i],
                    )
                &&& r@ == format_spec(fmt_str@, string_views(strs))
            },
{
    let mut strs: Vec<String> = Vec::new();
    let mut i: usize = 0;
    while i < args.len()
        invariant
            i <= args@.len(),
            strs@.len() == i,
            forall|k: int|
                0 <= k < i ==> to_string_from_display_ensures::<T>(&args@[k], #[trigger] strs@[k]),
        decreases args.len() - i,
    {
        strs.push(args[i].to_string());
        i = i + 1;
    }
    format_strings(fmt_str, &strs)
}

/// The number of `{}` placeholders in `s`, matched from the left without overlap.
pub open spec fn count_placeholders(s: Seq<char>) -> nat
    decreases s.len(),
{
    if s.len() == 0 {
        0
    } else if starts_with(s, seq!['{', '}']) {
        1 + count_placeholders(s.subrange(2, s.len() as int))
    } else {
        count_placeholders(s.drop_first())
    }
}

/// `s` with its `{}` placeholders filled from `vals` in order; placeholders
/// beyond the values stay as they are.
pub open spec fn fill_placeholders(s: Seq<char>, vals: Seq<Seq<char>>) -> Seq<char>
    decreases s.len(),
{
    if s.len() == 0 {
        s
    } else if starts_with(s, seq!['{', '}']) && vals.len() > 0 {
        vals[0] + fill_placeholders(s.subrange(2, s.len() as int), vals.drop_first())
    } else {
        seq![s[0]] + fill_placeholders(s.drop_first(), vals)
    }
}

/// The number of `{}` placeholders in `s`.
fn placeholder_count(s: &str) -> (r: usize)
    ensures
        r == count_placeholders(s@),
{
    let cs = chars_of(s);
    let pat = vec!['{', '}'];
    let mut n: usize = 0;
    let mut i: usize = 0;
    assert(cs@.subrange(0, cs@.len() as int) =~= cs@);
    while i < cs.len()
        invariant
            cs@ == s@,
            pat@ == seq!['{', '}'],
            i <= cs@.len(),
            n <= i,
            n + count_placeholders(cs@.subrange(i as int, cs@.len() as int)) == count_placeholders(
                s@,
            ),
        decreases cs.len() - i,
    {
        let ghost rest = cs@.subrange(i as int, cs@.len() as int);
        if matches_at(cs.as_slice(), pat.as_slice(), i) {
            assert(rest.subrange(2, rest.len() as int) =~= cs@.subrange(i + 2, cs@.len() as int));
            n = n + 1;
            i = i + 2;
        } else {
            assert(rest.drop_first() =~= cs@.subrange(i + 1, cs@.len() as int));
            i = i + 1;
        }
    }
    assert(cs@.subrange(i as int, cs@.len() as int).len() == 0);
    n
}

/// A format string with its values, filled in on demand.
pub struct StatefulFormat<'a> {
    format_str: &'a str,
    values: Vec<&'a str>,
}

/// The views of a list of string slices.
pub open spec fn str_views(v: Seq<&str>) -> Seq<Seq<char>> {
    v.map_values(|x: &str| x@)
}

impl<'a> View for StatefulFormat<'a> {
    type V = (Seq<char>, Seq<Seq<char>>);

    closed spec fn view(&self) -> (Seq<char>, Seq<Seq<char>>) {
        (self.format_str@, str_views(self.values@))
    }
}

impl<'a> StatefulFormat<'a> {
    /// Pads the values with empty ones, or drops the last ones, so that there
    /// is one for each placeholder.
    fn fix_values(self) -> (r: Self)
        ensures
            r@.0 == self@.0,
            r@.1.len() == count_placeholders(self@.0),
            forall|i: int|
                0 <= i < r@.1.len() ==> #[trigger] r@.1[i] == if i < self@.1.len() {
                    self@.1[i]
                } else {
                    Seq::<char>::empty()
                },
    {
        let expected = placeholder_count(self.format_str);
        let ghost orig = self.values@;
        let format_str = self.format_str;
        let mut values = self.values;
        if values.len() < expected {
            proof {
                reveal_strlit("");
            }
            while values.len() < expected
                invariant
                    orig.len() <= values@.len() <= expected,
                    forall|i: int|
                        0 <= i < values@.len() ==> (#[trigger] values@[i])@ == if i < orig.len() {
                            orig[i]@
                        } else {
                            Seq::<char>::empty()
                        },
                decreases expected - values.len(),
            {
                let empty = "";
                proof {
                    reveal_strlit("");
                }
                assert(empty@ =~= Seq::<char>::empty());
                values.push(empty);
            }
        } else {
            values.truncate(expected);
        }
        let r = StatefulFormat { format_str, values };
        assert forall|i: int| 0 <= i < r@.1.len() implies #[trigger] r@.1[i] == if i < self@.1.len() {
            self@.1[i]
        } else {
            Seq::<char>::empty()
        } by {
            assert(r@.1[i] == r.values@[i]@);
        }
        r
    }

    /// A format with the given values, or with an empty value for each
    /// placeholder; either way there is then one value per placeholder.
    pub fn new(format_str: &'a str, values: Option<Vec<&'a str>>) -> (r: Self)
        ensures
            r@.0 == format_str@,
            r@.1.len() == count_placeholders(format_str@),
            forall|i: int|
                0 <= i < r@.1.len() ==> #[trigger] r@.1[i] == match values {
                    Some(v) => if i < v@.len() {
                        v@[i]@
                    } else {
                        Seq::<char>::empty()
                    },
                    None => Seq::<char>::empty(),
                },
    {
        let values = match values {
            Some(v) => v,
            None => Vec::new(),
        };
        let sf = StatefulFormat { format_str, values };
        sf.fix_values()
    }

    /// The format string with its placeholders filled from the values in order.
    pub fn get(&self) -> (r: String)
        ensures
            r@ == fill_placeholders(self@.0, self@.1),
    {
        let cs = chars_of(self.format_str);
        let pat = vec!['{', '}'];
        let ghost vals = self@.1;
        let mut out: Vec<char> = Vec::new();
        let mut i: usize = 0;
        let mut j: usize = 0;
        assert(cs@.subrange(0, cs@.len() as int) =~= cs@);
        assert(vals.subrange(0, vals.len() as int) =~= vals);
        while i < cs.len()
            invariant
                cs@ == self@.0,
                pat@ == seq!['{', '}'],
                vals == self@.1,
                vals.len() == self.values@.len(),
                i <= cs@.len(),
                j <= vals.len(),
                out@ + fill_placeholders(
                    cs@.subrange(i as int, cs@.len() as int),
                    vals.subrange(j as int, vals.len() as int),
                ) == fill_placeholders(self@.0, self@.1),
            decreases cs.len() - i,
        {
            let ghost rest = cs@.subrange(i as int, cs@.len() as int);
            let ghost rv = vals.subrange(j as int, vals.len() as int);
            let ghost before = out@;
            if j < self.values.len() && matches_at(cs.as_slice(), pat.as_slice(), i) {
                assert(rest.subrange(2, rest.len() as int) =~= cs@.subrange(i + 2, cs@.len() as int));
                assert(rv.drop_first() =~= vals.subrange(j + 1, vals.len() as int));
                assert(rv[0] == self.values@[j as int]@);
                append_chars(&mut out, chars_of(self.values[j]).as_slice());
                i = i + 2;
                j = j + 1;
                assert(before + (rv[0] + fill_placeholders(
                    cs@.subrange(i as int, cs@.len() as int),
                    vals.subrange(j as int, vals.len() as int),
                )) =~= out@ + fill_placeholders(
                    cs@.subrange(i as int, cs@.len() as int),
                    vals.subrange(j as int, vals.len() as int),
                ));
            } else {
                assert(rest.drop_first() =~= cs@.subrange(i + 1, cs@.len() as int));
                out.push(cs[i]);
                i = i + 1;
                assert(before + (seq![rest[0]] + fill_placeholders(
                    cs@.subrange(i as int, cs@.len() as int),
                    rv,
                )) =~= out@ + fill_placeholders(cs@.subrange(i as int, cs@.len() as int), rv));
            }
        }
        assert(out@ + fill_placeholders(
            cs@.subrange(i as int, cs@.len() as int),
            vals.subrange(j as int, vals.len() as int),
        ) =~= out@);
        string_of(out.as_slice())
    }

    /// Inserts a value at `index`, shifting the later ones.
    pub fn insert(&mut self, index: usize, element: &'a str)
        requires
            index <= old(self)@.1.len(),
        ensures
            final(self)@ == (old(self)@.0, old(self)@.1.insert(index as int, element@)),
    {
        self.values.insert(index, element);
        assert(str_views(self.values@) =~= old(self)@.1.insert(index as int, element@));
    }

    /// Replaces the values.
    pub fn assign(&mut self, values: Vec<&'a str>)
        ensures
            final(self)@ == (old(self)@.0, str_views(values@)),
    {
        self.values = values;
    }
}

} // verus!
