//! The listing that is shown to the user.

use vstd::prelude::*;
use crate::identity::Identity;
use crate::list::GitIds;

verus! {

/// The character that writes the digit `d`.
pub open spec fn digit_char(d: int) -> char {
    if d == 0 {
        '0'
    } else if d == 1 {
        '1'
    } else if d == 2 {
        '2'
    } else if d == 3 {
        '3'
    } else if d == 4 {
        '4'
    } else if d == 5 {
        '5'
    } else if d == 6 {
        '6'
    } else if d == 7 {
        '7'
    } else if d == 8 {
        '8'
    } else {
        '9'
    }
}

/// The decimal digits of `n`, without leading zeros.
pub open spec fn decimal(n: nat) -> Seq<char>
    decreases n,
{
    if n < 10 {
        seq![digit_char(n as int)]
    } else {
        decimal(n / 10).push(digit_char((n % 10) as int))
    }
}

/// The two lines that show the entry at position `i`.
pub open spec fn entry_text(i: nat, id: Identity) -> Seq<char> {
    decimal(i) + ". Email: "@ + id.email + "\n   Name : "@ + id.name + "\n"@
}

/// The lines that show the first `n` entries of `s`, each under its
/// position, counted from zero.
pub open spec fn entries_text(s: Seq<Identity>, n: nat) -> Seq<char>
    decreases n,
{
    if n == 0 || n > s.len() {
        Seq::empty()
    } else {
        entries_text(s, (n - 1) as nat) + entry_text((n - 1) as nat, s[n - 1])
    }
}

/// The listing of `s`: a heading, then the entries, or a line that says
/// that there are none.
pub open spec fn listing(s: Seq<Identity>) -> Seq<char> {
    if s.len() == 0 {
        "Git IDs:\n"@ + "no Git IDs have been added yet.\n"@
    } else {
        "Git IDs:\n"@ + entries_text(s, s.len())
    }
}

/// The text of one digit.
fn digit_text(d: usize) -> (text: &'static str)
    requires
        d < 10,
    ensures
        text@ == seq![digit_char(d as int)],
{
    proof {
        reveal_strlit("0");
        reveal_strlit("1");
        reveal_strlit("2");
        reveal_strlit("3");
        reveal_strlit("4");
        reveal_strlit("5");
        reveal_strlit("6");
        reveal_strlit("7");
        reveal_strlit("8");
        reveal_strlit("9");
    }
    let text = if d == 0 {
        "0"
    } else if d == 1 {
        "1"
    } else if d == 2 {
        "2"
    } else if d == 3 {
        "3"
    } else if d == 4 {
        "4"
    } else if d == 5 {
        "5"
    } else if d == 6 {
        "6"
    } else if d == 7 {
        "7"
    } else if d == 8 {
        "8"
    } else {
        "9"
    };
    assert(text@ =~= seq![digit_char(d as int)]);
    text
}

/// Writes `n` in decimal digits at the end of `out`.
pub fn push_decimal(out: &mut String, n: usize)
    ensures
        final(out)@ == old(out)@ + decimal(n as nat),
    decreases n,
{
    if n >= 10 {
        push_decimal(out, n / 10);
    }
    out.append(digit_text(n % 10));
    proof {
        let d = digit_char((n % 10) as int);
        if n >= 10 {
            assert((old(out)@ + decimal((n / 10) as nat)) + seq![d] == old(out)@ + decimal(
                (n / 10) as nat,
            ).push(d));
        } else {
            assert(old(out)@ + seq![d] == old(out)@ + decimal(n as nat));
        }
    }
}

/// The listing of a list, as it is shown: `listing`.
pub fn list_ids(list: &GitIds) -> (text: String)
    ensures
        text@ == listing(list@),
{
    let mut text = "Git IDs:\n".to_owned();
    if list.ids.len() == 0 {
        text.append("no Git IDs have been added yet.\n");
        return text;
    }
    let mut k: usize = 0;
    while k < list.ids.len()
        invariant
            k <= list.ids.len(),
            text@ == "Git IDs:\n"@ + entries_text(list@, k as nat),
        decreases list.ids.len() - k,
    {
        let ghost before = text@;
        let id = &list.ids[k];
        push_decimal(&mut text, k);
        text.append(". Email: ");
        text.append(id.email.as_str());
        text.append("\n   Name : ");
        text.append(id.name.as_str());
        text.append("\n");
        proof {
            assert(list@[k as int] == id@);
            assert(text@ == before + entry_text(k as nat, id@));
            assert(text@ == "Git IDs:\n"@ + (entries_text(list@, k as nat) + entry_text(
                k as nat,
                id@,
            )));
        }
        k += 1;
    }
    text
}

} // verus!
