//! What is shown and passed around a package-manager command that runs interactively.
use vstd::prelude::*;
use vstd::string::*;

use crate::text::{push_char, str_eq};

verus! {

/// The title of the interactive header.
pub open spec fn header_title() -> Seq<char> {
    "[MPM interactive]"@
}

/// `n` dashes.
pub open spec fn dashes(n: nat) -> Seq<char> {
    Seq::new(n, |i: int| '-')
}

/// The header line shown before an interactive command: the title centred in dashes
/// across a terminal `width` columns wide (any odd dash goes to the right), or a fixed
/// line when the width is unknown.
pub open spec fn header_text(width: Option<u16>) -> Seq<char> {
    match width {
        Some(w) => {
            let padding = ((w - header_title().len()) / 2) as nat;
            dashes(padding) + header_title() + dashes((w - padding - header_title().len()) as nat)
        },
        None => "-------------------[MPM interactive]----------------"@,
    }
}

fn push_dashes(s: &mut String, n: usize)
    ensures
        final(s)@ == old(s)@ + dashes(n as nat),
{
    let ghost start = s@;
    let mut i: usize = 0;
    while i < n
        invariant
            i <= n,
            s@ == start + dashes(i as nat),
        decreases n - i,
    {
        push_char(s, '-');
        assert(start + dashes((i + 1) as nat) =~= (start + dashes(i as nat)).push('-'));
        i = i + 1;
    }
}

/// The header line shown before an interactive command. A known width must leave room
/// for the title.
pub fn header_line(width: Option<u16>) -> (res: String)
    requires
        width matches Some(w) ==> w >= 17,
    ensures
        res@ == header_text(width),
{
    proof {
        reveal_strlit("[MPM interactive]");
    }
    match width {
        Some(w) => {
            let total: usize = w as usize;
            let title = "[MPM interactive]";
            let text_len = title.unicode_len();
            let padding = (total - text_len) / 2;
            let mut res = String::new();
            push_dashes(&mut res, padding);
            res.append(title);
            push_dashes(&mut res, total - padding - text_len);
            res
        },
        None => "-------------------[MPM interactive]----------------".to_owned(),
    }
}

/// The arguments with every occurrence of `flag` left out, in their order.
pub open spec fn without_flag(args: Seq<Seq<char>>, flag: Seq<char>) -> Seq<Seq<char>>
    decreases args.len(),
{
    if args.len() == 0 {
        Seq::<Seq<char>>::empty()
    } else {
        let init = without_flag(args.drop_last(), flag);
        if args.last() == flag {
            init
        } else {
            init.push(args.last())
        }
    }
}

/// The arguments of a command that runs interactively: the user answers its prompts,
/// so the `-y` that answers them in advance is left out.
pub fn without_assume_yes(args: &Vec<String>) -> (res: Vec<String>)
    ensures
        res@.map_values(|a: String| a@) == without_flag(args@.map_values(|a: String| a@), "-y"@),
{
    let ghost views = args@.map_values(|a: String| a@);
    let mut res: Vec<String> = Vec::new();
    let mut i: usize = 0;
    assert(views.take(0) =~= Seq::<Seq<char>>::empty());
    while i < args.len()
        invariant
            views == args@.map_values(|a: String| a@),
            i <= args.len(),
            res@.map_values(|a: String| a@) == without_flag(views.take(i as int), "-y"@),
        decreases args.len() - i,
    {
        assert(views.take(i + 1).drop_last() =~= views.take(i as int));
        assert(views.take(i + 1).last() == args@[i as int]@);
        if !str_eq(args[i].as_str(), "-y") {
            let ghost before = res@.map_values(|a: String| a@);
            res.push(args[i].clone());
            assert(res@.map_values(|a: String| a@) =~= before.push(args@[i as int]@));
        }
        i = i + 1;
    }
    assert(views.take(args.len() as int) =~= views);
    res
}

} // verus!
