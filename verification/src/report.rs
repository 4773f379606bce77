//! What is shown of a run: the banner in front of it, and the captured
//! lines of each directory.

use vstd::prelude::*;
use vstd::string::*;

verus! {

/// The words in front of the command line in the banner.
pub const BANNER_PREFIX: &'static str = "Executing ";

/// How far a captured line is moved to the right.
pub const INDENT: &'static str = "        ";

/// `words` with one space between each two of them.
pub open spec fn spaced(words: Seq<Seq<char>>) -> Seq<char>
    decreases words.len(),
{
    if words.len() == 0 {
        Seq::empty()
    } else if words.len() == 1 {
        words[0]
    } else {
        spaced(words.drop_last()) + seq![' '] + words.last()
    }
}

/// The banner of a run of `program` with `args`: the command line as it
/// would be typed, behind the prefix.
pub open spec fn banner_text(program: Seq<char>, args: Seq<Seq<char>>) -> Seq<char> {
    BANNER_PREFIX@ + program + seq![' '] + spaced(args)
}

/// The banner of a run of `program` with `args`.
pub fn banner(program: &str, args: &Vec<String>) -> (text: String)
    ensures
        text@ == banner_text(program@, args.deep_view()),
{
    proof {
        reveal_strlit(" ");
    }
    let ghost words = args.deep_view();
    let mut text = BANNER_PREFIX.to_owned();
    text.append(program);
    text.append(" ");
    let ghost head = text@;
    let mut i: usize = 0;
    while i < args.len()
        invariant
            i <= args.len(),
            words == args.deep_view(),
            head == BANNER_PREFIX@ + program@ + seq![' '],
            " "@ == seq![' '],
            text@ == head + spaced(words.take(i as int)),
        decreases args.len() - i,
    {
        assert(words.take(i as int + 1).drop_last() == words.take(i as int));
        assert(words.take(i as int + 1).last() == args[i as int]@);
        if i > 0 {
            text.append(" ");
        }
        text.append(args[i].as_str());
        i += 1;
    }
    assert(words.take(args.len() as int) == words);
    text
}

/// A line of `width` dashes.
pub fn rule(width: usize) -> (line: String)
    ensures
        line@ == Seq::new(width as nat, |i: int| '-'),
{
    proof {
        reveal_strlit("-");
    }
    let mut line = String::new();
    let mut i: usize = 0;
    while i < width
        invariant
            i <= width,
            "-"@ == seq!['-'],
            line@ == Seq::new(i as nat, |k: int| '-'),
        decreases width - i,
    {
        line.append("-");
        i += 1;
    }
    line
}

/// The captured line `line` as it is shown: moved to the right.
pub fn indent(line: &str) -> (shown: String)
    ensures
        shown@ == INDENT@ + line@,
{
    let mut shown = INDENT.to_owned();
    shown.append(line);
    shown
}

} // verus!
