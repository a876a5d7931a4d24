//! Arranging monitors with xrandr: reading its report and choosing the commands to run.
use vstd::prelude::*;
use vstd::string::{StrSliceExecFns, StringExecFns};

use crate::wm::data_types::RelativePosition;
use crate::wm::key_text::{lines_of, pieces, same_text, split_by, text_lines, texts, Separator};
use crate::PenroseError;

verus! {

/// Whether `s` begins with `p`.
pub open spec fn begins_with(s: Seq<char>, p: Seq<char>) -> bool {
    p.len() <= s.len() && s.take(p.len() as int) == p
}

/// The index of the first of `lines` that begins with `p`, if any.
pub open spec fn first_line_beginning(lines: Seq<Seq<char>>, p: Seq<char>) -> Option<int>
    decreases lines.len(),
{
    if lines.len() == 0 {
        None
    } else {
        match first_line_beginning(lines.drop_last(), p) {
            Some(i) => Some(i),
            None => if begins_with(lines.last(), p) {
                Some(lines.len() - 1)
            } else {
                None
            },
        }
    }
}

/// The xrandr flag that places an output relative to another.
pub open spec fn position_flag_text(position: RelativePosition) -> Seq<char> {
    match position {
        RelativePosition::Left => "--left-of"@,
        RelativePosition::Right => "--right-of"@,
        RelativePosition::Above => "--above"@,
        RelativePosition::Below => "--below"@,
    }
}

/// The commands that arrange `primary` and `secondary`, given the status xrandr
/// reports for `secondary`: make `primary` the primary output, then switch
/// `secondary` off when it is disconnected or place it when it is connected.
pub open spec fn monitor_commands(primary: Seq<char>, secondary: Seq<char>, position: RelativePosition, status: Seq<char>) -> Seq<Seq<char>> {
    let first = "xrandr --output "@ + primary + " --primary --auto"@;
    if status == "disconnected"@ {
        seq![first, "xrandr --output "@ + secondary + " --off"@]
    } else if status == "connected"@ {
        seq![first, "xrandr --output "@ + secondary + " --auto "@ + position_flag_text(position) + " "@ + primary]
    } else {
        seq![first]
    }
}

/// The xrandr flag that places an output relative to another.
fn position_flag(position: RelativePosition) -> (r: &'static str)
    ensures
        r@ == position_flag_text(position),
{
    match position {
        RelativePosition::Left => "--left-of",
        RelativePosition::Right => "--right-of",
        RelativePosition::Above => "--above",
        RelativePosition::Below => "--below",
    }
}

/// The first line of `lines` that begins with `p`.
fn find_line_beginning(lines: &Vec<&str>, p: &str) -> (r: Option<usize>)
    ensures
        match first_line_beginning(texts(lines@), p@) {
            Some(i) => r == Some(i as usize),
            None => r is None,
        },
{
    let ghost ls = texts(lines@);
    let mut i: usize = 0;
    assert(ls.take(0) =~= Seq::<Seq<char>>::empty());
    while i < lines.len()
        invariant
            ls == texts(lines@),
            i <= lines@.len(),
            first_line_beginning(ls.take(i as int), p@) is None,
        decreases lines@.len() - i,
    {
        let line = lines[i];
        let begins = if p.unicode_len() <= line.unicode_len() {
            let head = line.substring_char(0, p.unicode_len());
            same_text(head, p)
        } else {
            false
        };
        proof {
            assert(ls.take(i + 1).drop_last() == ls.take(i as int));
            assert(ls.take(i + 1).last() == line@);
            if p@.len() <= line@.len() {
                assert(line@.subrange(0, p@.len() as int) == line@.take(p@.len() as int));
            }
        }
        if begins {
            proof {
                lemma_first_line_stays(ls, i as int + 1, p@);
            }
            return Some(i);
        }
        i = i + 1;
    }
    assert(ls.take(i as int) == ls);
    None
}

/// The first line beginning with `p` is one of the lines, and begins with `p`.
pub proof fn lemma_first_line_in_range(lines: Seq<Seq<char>>, p: Seq<char>)
    ensures
        first_line_beginning(lines, p) matches Some(i) ==> 0 <= i < lines.len() && begins_with(lines[i], p),
    decreases lines.len(),
{
    if lines.len() > 0 {
        lemma_first_line_in_range(lines.drop_last(), p);
    }
}

/// Once a prefix of the lines holds a line beginning with `p`, the first such line
/// of all the lines is that one.
proof fn lemma_first_line_stays(lines: Seq<Seq<char>>, n: int, p: Seq<char>)
    requires
        0 <= n <= lines.len(),
        first_line_beginning(lines.take(n), p) is Some,
    ensures
        first_line_beginning(lines, p) == first_line_beginning(lines.take(n), p),
    decreases lines.len() - n,
{
    if n < lines.len() {
        assert(lines.take(n + 1).drop_last() == lines.take(n));
        lemma_first_line_stays(lines, n + 1, p);
    } else {
        assert(lines.take(n) == lines);
    }
}

/// The xrandr commands that arrange the monitors, given the report of running xrandr.
///
/// The status of `secondary` is the second space-separated word of the first line of
/// the report that begins with its name. It is an error when no line begins with
/// that name, or the line has no second word.
pub fn xrandr_commands(raw: &str, primary: &str, secondary: &str, position: RelativePosition) -> (r: Result<
    Vec<String>,
    PenroseError,
>)
    ensures
        match first_line_beginning(text_lines(raw@), secondary@) {
            None => r matches Err(PenroseError::Raw(m)) && m@ == "unable to find secondary monitor in xrandr output"@,
            Some(i) => {
                let words = pieces(text_lines(raw@)[i], Separator::Char(' '));
                if words.len() < 2 {
                    r matches Err(PenroseError::Raw(m)) && m@ == "unexpected xrandr output"@
                } else {
                    r matches Ok(cmds) && cmds@.map_values(|c: String| c@) == monitor_commands(
                        primary@,
                        secondary@,
                        position,
                        words[1],
                    )
                }
            },
        },
{
    let lines = lines_of(raw);
    let found = find_line_beginning(&lines, secondary);
    let i = match found {
        Some(i) => i,
        None => {
            return Err(PenroseError::Raw("unable to find secondary monitor in xrandr output".to_owned()));
        },
    };
    proof {
        let ls = texts(lines@);
        lemma_first_line_in_range(ls, secondary@);
        match first_line_beginning(ls, secondary@) {
            Some(j) => {
                assert(0 <= j < ls.len());
                assert(j as usize == i);
            },
            None => {},
        }
        assert(texts(lines@)[i as int] == lines@[i as int]@);
    }
    let words = split_by(lines[i], Separator::Char(' '));
    assert(first_line_beginning(text_lines(raw@), secondary@) == Some(i as int));
    assert(pieces(text_lines(raw@)[i as int], Separator::Char(' ')) == texts(words@));
    if words.len() < 2 {
        return Err(PenroseError::Raw("unexpected xrandr output".to_owned()));
    }
    let status = words[1];
    let flag = position_flag(position);
    let mut cmds: Vec<String> = Vec::new();
    cmds.push("xrandr --output ".to_owned().concat(primary).concat(" --primary --auto"));
    if same_text(status, "disconnected") {
        cmds.push("xrandr --output ".to_owned().concat(secondary).concat(" --off"));
    } else if same_text(status, "connected") {
        cmds.push(
            "xrandr --output ".to_owned().concat(secondary).concat(" --auto ").concat(flag).concat(" ").concat(
                primary,
            ),
        );
    }
    proof {
        assert(texts(words@)[1] == status@);
        let expected = monitor_commands(primary@, secondary@, position, status@);
        assert(cmds@.map_values(|c: String| c@) =~= expected);
    }
    Ok(cmds)
}

} // verus!
