//! The texts of status messages and warnings.
use vstd::prelude::*;
use crate::chars::string_push;
use crate::tab::{Tab, str_to_string};

verus! {

/// The decimal digits of `n`.
pub open spec fn decimal(n: nat) -> Seq<char>
    decreases n,
{
    if n < 10 {
        seq![digit(n)]
    } else {
        decimal(n / 10).push(digit(n % 10))
    }
}

/// The digit char for `d` below ten.
pub open spec fn digit(d: nat) -> char {
    if d == 0 {
        '0'
    } else if d == 1 {
        '1'
    } else if d == 2 {
        '2'
    } else if d == 3 {
        '3'
    } else if d == 4 {
        '4'
    } else if d == 5 {
        '5'
    } else if d == 6 {
        '6'
    } else if d == 7 {
        '7'
    } else if d == 8 {
        '8'
    } else {
        '9'
    }
}

fn digit_char(d: usize) -> (c: char)
    requires
        d < 10,
    ensures
        c == digit(d as nat),
{
    if d == 0 {
        '0'
    } else if d == 1 {
        '1'
    } else if d == 2 {
        '2'
    } else if d == 3 {
        '3'
    } else if d == 4 {
        '4'
    } else if d == 5 {
        '5'
    } else if d == 6 {
        '6'
    } else if d == 7 {
        '7'
    } else if d == 8 {
        '8'
    } else {
        '9'
    }
}

/// `n` in decimal.
pub fn decimal_string(n: usize) -> (s: String)
    ensures
        s@ == decimal(n as nat),
    decreases n,
{
    if n < 10 {
        let mut s = String::new();
        string_push(&mut s, digit_char(n));
        assert(s@ =~= seq![digit(n as nat)]);
        s
    } else {
        let mut s = decimal_string(n / 10);
        string_push(&mut s, digit_char(n % 10));
        s
    }
}

/// Appends `t` to `s`.
pub fn append(s: &mut String, t: &str)
    ensures
        final(s)@ == old(s)@ + t@,
{
    let cs = crate::chars::str_to_chars(t);
    let ghost s0 = s@;
    let mut i: usize = 0;
    while i < cs.len()
        invariant
            i <= cs@.len(),
            cs@ == t@,
            s@ == s0 + t@.take(i as int),
        decreases cs.len() - i,
    {
        string_push(s, cs[i]);
        assert(s0 + t@.take(i + 1) =~= (s0 + t@.take(i as int)).push(cs@[i as int]));
        i = i + 1;
    }
    assert(t@.take(cs.len() as int) =~= t@);
}

/// `a`, `b` and `c` one after the other.
pub fn concat3(a: &str, b: &str, c: &str) -> (s: String)
    ensures
        s@ == a@ + b@ + c@,
{
    let mut s = str_to_string(a);
    append(&mut s, b);
    append(&mut s, c);
    s
}

/// The names of the tabs with unsaved changes, in order.
pub open spec fn modified_names(tabs: Seq<Tab>) -> Seq<Seq<char>>
    decreases tabs.len(),
{
    if tabs.len() == 0 {
        Seq::empty()
    } else {
        let rest = modified_names(tabs.drop_last());
        if tabs.last().is_modified() {
            rest.push(tabs.last().name_spec())
        } else {
            rest
        }
    }
}

/// The warning before quitting with the unsaved tabs named `names`.
pub open spec fn quit_warning(names: Seq<Seq<char>>) -> Seq<char> {
    if names.len() == 1 {
        "Tab '"@ + names[0] + "' has unsaved changes. Quit anyway?"@
    } else {
        decimal(names.len()) + " tabs have unsaved changes. Quit anyway?"@
    }
}

/// The warning before closing the unsaved tab named `name`.
pub open spec fn close_warning(name: Seq<char>) -> Seq<char> {
    "Tab '"@ + name + "' has unsaved changes. Close anyway?"@
}

/// The message that tells which match is current.
pub open spec fn match_message(index: nat, total: nat) -> Seq<char> {
    "Match "@ + decimal(index + 1) + " of "@ + decimal(total)
}

/// The names of the unsaved tabs among `tabs`.
pub fn unsaved_names(tabs: &[Tab]) -> (r: Vec<String>)
    ensures
        r@.map_values(|s: String| s@) == modified_names(tabs@),
{
    let mut r: Vec<String> = Vec::new();
    let mut i: usize = 0;
    assert(tabs@.take(0) =~= Seq::<Tab>::empty());
    assert(r@.map_values(|s: String| s@) =~= Seq::<Seq<char>>::empty());
    while i < tabs.len()
        invariant
            i <= tabs@.len(),
            r@.map_values(|s: String| s@) == modified_names(tabs@.take(i as int)),
        decreases tabs.len() - i,
    {
        assert(tabs@.take(i + 1).drop_last() =~= tabs@.take(i as int));
        assert(tabs@.take(i + 1).last() == tabs@[i as int]);
        if tabs[i].modified() {
            r.push(tabs[i].name().clone());
            assert(r@.map_values(|s: String| s@) =~= modified_names(tabs@.take(i as int)).push(
                tabs@[i as int].name_spec(),
            ));
        }
        i = i + 1;
    }
    assert(tabs@.take(i as int) =~= tabs@);
    r
}

/// The warning before quitting with the unsaved tabs named `names` (not
/// empty).
pub fn quit_warning_text(names: &Vec<String>) -> (s: String)
    requires
        names@.len() > 0,
    ensures
        s@ == quit_warning(names@.map_values(|n: String| n@)),
{
    if names.len() == 1 {
        let a = "Tab '";
        let c = "' has unsaved changes. Quit anyway?";
        let s = concat3(a, names[0].as_str(), c);
        s
    } else {
        let mut s = decimal_string(names.len());
        append(&mut s, " tabs have unsaved changes. Quit anyway?");
        s
    }
}

/// The warning before closing the unsaved tab named `name`.
pub fn close_warning_text(name: &str) -> (s: String)
    ensures
        s@ == close_warning(name@),
{
    concat3("Tab '", name, "' has unsaved changes. Close anyway?")
}

/// The message that tells which match is current.
pub fn match_message_text(index: usize, total: usize) -> (s: String)
    requires
        index < usize::MAX,
    ensures
        s@ == match_message(index as nat, total as nat),
{
    let mut s = str_to_string("Match ");
    let i = decimal_string(index + 1);
    append(&mut s, i.as_str());
    append(&mut s, " of ");
    let t = decimal_string(total);
    append(&mut s, t.as_str());
    s
}


/// Ten to the power `k`.
pub open spec fn pow10(k: nat) -> nat
    decreases k,
{
    if k == 0 {
        1
    } else {
        10 * pow10((k - 1) as nat)
    }
}

proof fn lemma_decimal_len_below(n: nat, k: nat)
    requires
        k >= 1,
        n < pow10(k),
    ensures
        decimal(n).len() <= k,
    decreases k,
{
    if n >= 10 {
        assert(k >= 2) by {
            if k == 1 {
                reveal_with_fuel(pow10, 2);
                assert(pow10(1) == 10);
            }
        }
        assert(n / 10 < pow10((k - 1) as nat));
        lemma_decimal_len_below(n / 10, (k - 1) as nat);
    }
}

/// A `usize` has at most twenty decimal digits.
pub proof fn lemma_decimal_len(n: nat)
    requires
        n <= usize::MAX,
    ensures
        decimal(n).len() <= 20,
{
    reveal_with_fuel(pow10, 21);
    assert(pow10(20) == 100000000000000000000);
    assert(usize::MAX < 100000000000000000000);
    lemma_decimal_len_below(n, 20);
}

} // verus!
