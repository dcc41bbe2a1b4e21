use crate::counter::{wrap_inc, Counter, SharedCounter};
use vstd::prelude::*;
use vstd::string::*;

verus! {

/// The character of decimal digit `d`.
pub open spec fn digit_char(d: nat) -> char {
    if d == 0 {
        '0'
    } else if d == 1 {
        '1'
    } else if d == 2 {
        '2'
    } else if d == 3 {
        '3'
    } else if d == 4 {
        '4'
    } else if d == 5 {
        '5'
    } else if d == 6 {
        '6'
    } else if d == 7 {
        '7'
    } else if d == 8 {
        '8'
    } else {
        '9'
    }
}

/// `n` written in decimal, without leading zeros.
pub open spec fn decimal(n: nat) -> Seq<char>
    decreases n,
{
    if n < 10 {
        seq![digit_char(n)]
    } else {
        decimal(n / 10).push(digit_char(n % 10))
    }
}

/// The body that reports both counts.
pub open spec fn count_body(global: nat, local: nat) -> Seq<char> {
    "global_count: "@ + decimal(global) + "\nlocal_count: "@ + decimal(local)
}

/// The greeting for a user reached by id.
pub open spec fn welcome_body(friend: Seq<char>, user_id: nat) -> Seq<char> {
    "Welcome "@ + friend + ", user_id "@ + decimal(user_id) + "!"@
}

/// The answer to a search.
pub open spec fn search_body(query: Seq<char>) -> Seq<char> {
    "Searching for: "@ + query
}

fn digit_str(d: u64) -> (r: &'static str)
    requires
        d < 10,
    ensures
        r@ == seq![digit_char(d as nat)],
{
    proof {
        reveal_strlit("0");
        reveal_strlit("1");
        reveal_strlit("2");
        reveal_strlit("3");
        reveal_strlit("4");
        reveal_strlit("5");
        reveal_strlit("6");
        reveal_strlit("7");
        reveal_strlit("8");
        reveal_strlit("9");
    }
    let r = if d == 0 {
        "0"
    } else if d == 1 {
        "1"
    } else if d == 2 {
        "2"
    } else if d == 3 {
        "3"
    } else if d == 4 {
        "4"
    } else if d == 5 {
        "5"
    } else if d == 6 {
        "6"
    } else if d == 7 {
        "7"
    } else if d == 8 {
        "8"
    } else {
        "9"
    };
    assert(r@ =~= seq![digit_char(d as nat)]);
    r
}

/// Appends `n` in decimal to `out`.
pub fn push_decimal(out: &mut String, n: u64)
    ensures
        final(out)@ == old(out)@ + decimal(n as nat),
    decreases n,
{
    if n >= 10 {
        push_decimal(out, n / 10);
    }
    out.append(digit_str(n % 10));
    assert(out@ =~= old(out)@ + decimal(n as nat));
}

/// The body that reports a global and a local count, one per line.
pub fn count_text(global: usize, local: usize) -> (r: String)
    ensures
        r@ == count_body(global as nat, local as nat),
{
    let mut out = String::from_str("global_count: ");
    push_decimal(&mut out, global as u64);
    out.append("\nlocal_count: ");
    push_decimal(&mut out, local as u64);
    out
}

/// Reports the counts without changing them. The global count is whatever
/// the shared counter holds when it is read.
pub fn show_count(global: &SharedCounter, local: &Counter) -> (r: String)
    ensures
        exists|g: usize| r@ == count_body(g as nat, local@ as nat),
{
    let g = global.read_global();
    count_text(g, local.get())
}

/// Adds one to the global and to the local count, then reports both.
pub fn add_one(global: &SharedCounter, local: &mut Counter) -> (r: String)
    ensures
        final(local)@ == wrap_inc(old(local)@),
        exists|g: usize| r@ == count_body(g as nat, final(local)@ as nat),
{
    global.increment_global();
    local.increment();
    let g = global.read_global();
    count_text(g, local.get())
}

/// The greeting for `friend`, reached as user `user_id`.
pub fn welcome_text(friend: &str, user_id: u32) -> (r: String)
    ensures
        r@ == welcome_body(friend@, user_id as nat),
{
    let mut out = String::from_str("Welcome ");
    out.append(friend);
    out.append(", user_id ");
    push_decimal(&mut out, user_id as u64);
    out.append("!");
    out
}

/// Counts a visit in the global count and greets the user.
pub fn visit_user(global: &SharedCounter, friend: &str, user_id: u32) -> (r: String)
    ensures
        r@ == welcome_body(friend@, user_id as nat),
{
    global.increment_global();
    welcome_text(friend, user_id)
}

/// The answer to a search for `query`.
pub fn search_text(query: &str) -> (r: String)
    ensures
        r@ == search_body(query@),
{
    let mut out = String::from_str("Searching for: ");
    out.append(query);
    out
}

} // verus!
