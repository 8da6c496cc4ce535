//! zsh prompt lowering and escaping.
//!
//! Text is escaped so that zsh prints it as it is (`%` becomes `%%`), and style
//! escapes are wrapped in `%{ %}` so that zsh does not count them as visible.

use vstd::prelude::*;

use crate::segments::{
    parts_in_use, SegmentContent, SegmentContentView, SegmentPart, SegmentPartView, Style,
    StyleView,
};
use crate::text::{chars_of, join_with, push_char, push_str, str_eq};

verus! {

/// `s` with every `%` doubled.
pub open spec fn escaped(s: Seq<char>) -> Seq<char>
    decreases s.len(),
{
    if s.len() == 0 {
        s
    } else {
        escaped(s.drop_last()) + if s.last() == '%' {
            seq!['%', '%']
        } else {
            seq![s.last()]
        }
    }
}

/// The SGR code that selects a foreground colour.
pub open spec fn fg_code_of(color: Seq<char>) -> Option<Seq<char>> {
    if color == "black"@ {
        Some("30"@)
    } else if color == "red"@ {
        Some("31"@)
    } else if color == "green"@ {
        Some("32"@)
    } else if color == "yellow"@ {
        Some("33"@)
    } else if color == "blue"@ {
        Some("34"@)
    } else if color == "magenta"@ {
        Some("35"@)
    } else if color == "cyan"@ {
        Some("36"@)
    } else if color == "white"@ {
        Some("37"@)
    } else if color == "bright_black"@ {
        Some("90"@)
    } else if color == "bright_red"@ {
        Some("91"@)
    } else if color == "bright_green"@ {
        Some("92"@)
    } else if color == "bright_yellow"@ {
        Some("93"@)
    } else if color == "bright_blue"@ {
        Some("94"@)
    } else if color == "bright_magenta"@ {
        Some("95"@)
    } else if color == "bright_cyan"@ {
        Some("96"@)
    } else if color == "bright_white"@ {
        Some("97"@)
    } else {
        None
    }
}

/// The eight basic colour names, in the order of their SGR codes.
pub open spec fn basic_colors() -> Seq<Seq<char>> {
    seq!["black"@, "red"@, "green"@, "yellow"@, "blue"@, "magenta"@, "cyan"@, "white"@]
}

/// The decimal digit of `i`, for `i` below 8.
pub open spec fn octal_digit(i: int) -> char {
    seq!['0', '1', '2', '3', '4', '5', '6', '7'][i]
}

proof fn lemma_fg_basic(i: int)
    requires
        0 <= i < 8,
    ensures
        fg_code_of(basic_colors()[i]) == Some(seq!['3', octal_digit(i)]),
{
    if i == 0 {
        reveal_strlit("black");
        reveal_strlit("black");
        reveal_strlit("30");
        assert(basic_colors()[i] == "black"@);
        assert("30"@ =~= seq!['3', octal_digit(i)]);
    }
    if i == 1 {
        reveal_strlit("red");
        reveal_strlit("red");
        reveal_strlit("31");
        assert(basic_colors()[i] == "red"@);
        reveal_strlit("black");
        assert("red"@.len() != "black"@.len());
        assert("31"@ =~= seq!['3', octal_digit(i)]);
    }
    if i == 2 {
        reveal_strlit("green");
        reveal_strlit("green");
        reveal_strlit("32");
        assert(basic_colors()[i] == "green"@);
        reveal_strlit("black");
        assert("green"@[0] != "black"@[0]);
        reveal_strlit("red");
        assert("green"@.len() != "red"@.len());
        assert("32"@ =~= seq!['3', octal_digit(i)]);
    }
    if i == 3 {
        reveal_strlit("yellow");
        reveal_strlit("yellow");
        reveal_strlit("33");
        assert(basic_colors()[i] == "yellow"@);
        reveal_strlit("black");
        assert("yellow"@.len() != "black"@.len());
        reveal_strlit("red");
        assert("yellow"@.len() != "red"@.len());
        reveal_strlit("green");
        assert("yellow"@.len() != "green"@.len());
        assert("33"@ =~= seq!['3', octal_digit(i)]);
    }
    if i == 4 {
        reveal_strlit("blue");
        reveal_strlit("blue");
        reveal_strlit("34");
        assert(basic_colors()[i] == "blue"@);
        reveal_strlit("black");
        assert("blue"@.len() != "black"@.len());
        reveal_strlit("red");
        assert("blue"@.len() != "red"@.len());
        reveal_strlit("green");
        assert("blue"@.len() != "green"@.len());
        reveal_strlit("yellow");
        assert("blue"@.len() != "yellow"@.len());
        assert("34"@ =~= seq!['3', octal_digit(i)]);
    }
    if i == 5 {
        reveal_strlit("magenta");
        reveal_strlit("magenta");
        reveal_strlit("35");
        assert(basic_colors()[i] == "magenta"@);
        reveal_strlit("black");
        assert("magenta"@.len() != "black"@.len());
        reveal_strlit("red");
        assert("magenta"@.len() != "red"@.len());
        reveal_strlit("green");
        assert("magenta"@.len() != "green"@.len());
        reveal_strlit("yellow");
        assert("magenta"@.len() != "yellow"@.len());
        reveal_strlit("blue");
        assert("magenta"@.len() != "blue"@.len());
        assert("35"@ =~= seq!['3', octal_digit(i)]);
    }
    if i == 6 {
        reveal_strlit("cyan");
        reveal_strlit("cyan");
        reveal_strlit("36");
        assert(basic_colors()[i] == "cyan"@);
        reveal_strlit("black");
        assert("cyan"@.len() != "black"@.len());
        reveal_strlit("red");
        assert("cyan"@.len() != "red"@.len());
        reveal_strlit("green");
        assert("cyan"@.len() != "green"@.len());
        reveal_strlit("yellow");
        assert("cyan"@.len() != "yellow"@.len());
        reveal_strlit("blue");
        assert("cyan"@[0] != "blue"@[0]);
        reveal_strlit("magenta");
        assert("cyan"@.len() != "magenta"@.len());
        assert("36"@ =~= seq!['3', octal_digit(i)]);
    }
    if i == 7 {
        reveal_strlit("white");
        reveal_strlit("white");
        reveal_strlit("37");
        assert(basic_colors()[i] == "white"@);
        reveal_strlit("black");
        assert("white"@[0] != "black"@[0]);
        reveal_strlit("red");
        assert("white"@.len() != "red"@.len());
        reveal_strlit("green");
        assert("white"@[0] != "green"@[0]);
        reveal_strlit("yellow");
        assert("white"@.len() != "yellow"@.len());
        reveal_strlit("blue");
        assert("white"@.len() != "blue"@.len());
        reveal_strlit("magenta");
        assert("white"@.len() != "magenta"@.len());
        reveal_strlit("cyan");
        assert("white"@.len() != "cyan"@.len());
        assert("37"@ =~= seq!['3', octal_digit(i)]);
    }
}

proof fn lemma_bg_basic(i: int)
    requires
        0 <= i < 8,
    ensures
        bg_code_of(basic_colors()[i]) == Some(seq!['4', octal_digit(i)]),
{
    if i == 0 {
        reveal_strlit("black");
        reveal_strlit("black");
        reveal_strlit("40");
        assert(basic_colors()[i] == "black"@);
        assert("40"@ =~= seq!['4', octal_digit(i)]);
    }
    if i == 1 {
        reveal_strlit("red");
        reveal_strlit("red");
        reveal_strlit("41");
        assert(basic_colors()[i] == "red"@);
        reveal_strlit("black");
        assert("red"@.len() != "black"@.len());
        assert("41"@ =~= seq!['4', octal_digit(i)]);
    }
    if i == 2 {
        reveal_strlit("green");
        reveal_strlit("green");
        reveal_strlit("42");
        assert(basic_colors()[i] == "green"@);
        reveal_strlit("black");
        assert("green"@[0] != "black"@[0]);
        reveal_strlit("red");
        assert("green"@.len() != "red"@.len());
        assert("42"@ =~= seq!['4', octal_digit(i)]);
    }
    if i == 3 {
        reveal_strlit("yellow");
        reveal_strlit("yellow");
        reveal_strlit("43");
        assert(basic_colors()[i] == "yellow"@);
        reveal_strlit("black");
        assert("yellow"@.len() != "black"@.len());
        reveal_strlit("red");
        assert("yellow"@.len() != "red"@.len());
        reveal_strlit("green");
        assert("yellow"@.len() != "green"@.len());
        assert("43"@ =~= seq!['4', octal_digit(i)]);
    }
    if i == 4 {
        reveal_strlit("blue");
        reveal_strlit("blue");
        reveal_strlit("44");
        assert(basic_colors()[i] == "blue"@);
        reveal_strlit("black");
        assert("blue"@.len() != "black"@.len());
        reveal_strlit("red");
        assert("blue"@.len() != "red"@.len());
        reveal_strlit("green");
        assert("blue"@.len() != "green"@.len());
        reveal_strlit("yellow");
        assert("blue"@.len() != "yellow"@.len());
        assert("44"@ =~= seq!['4', octal_digit(i)]);
    }
    if i == 5 {
        reveal_strlit("magenta");
        reveal_strlit("magenta");
        reveal_strlit("45");
        assert(basic_colors()[i] == "magenta"@);
        reveal_strlit("black");
        assert("magenta"@.len() != "black"@.len());
        reveal_strlit("red");
        assert("magenta"@.len() != "red"@.len());
        reveal_strlit("green");
        assert("magenta"@.len() != "green"@.len());
        reveal_strlit("yellow");
        assert("magenta"@.len() != "yellow"@.len());
        reveal_strlit("blue");
        assert("magenta"@.len() != "blue"@.len());
        assert("45"@ =~= seq!['4', octal_digit(i)]);
    }
    if i == 6 {
        reveal_strlit("cyan");
        reveal_strlit("cyan");
        reveal_strlit("46");
        assert(basic_colors()[i] == "cyan"@);
        reveal_strlit("black");
        assert("cyan"@.len() != "black"@.len());
        reveal_strlit("red");
        assert("cyan"@.len() != "red"@.len());
        reveal_strlit("green");
        assert("cyan"@.len() != "green"@.len());
        reveal_strlit("yellow");
        assert("cyan"@.len() != "yellow"@.len());
        reveal_strlit("blue");
        assert("cyan"@[0] != "blue"@[0]);
        reveal_strlit("magenta");
        assert("cyan"@.len() != "magenta"@.len());
        assert("46"@ =~= seq!['4', octal_digit(i)]);
    }
    if i == 7 {
        reveal_strlit("white");
        reveal_strlit("white");
        reveal_strlit("47");
        assert(basic_colors()[i] == "white"@);
        reveal_strlit("black");
        assert("white"@[0] != "black"@[0]);
        reveal_strlit("red");
        assert("white"@.len() != "red"@.len());
        reveal_strlit("green");
        assert("white"@[0] != "green"@[0]);
        reveal_strlit("yellow");
        assert("white"@.len() != "yellow"@.len());
        reveal_strlit("blue");
        assert("white"@.len() != "blue"@.len());
        reveal_strlit("magenta");
        assert("white"@.len() != "magenta"@.len());
        reveal_strlit("cyan");
        assert("white"@.len() != "cyan"@.len());
        assert("47"@ =~= seq!['4', octal_digit(i)]);
    }
}

proof fn lemma_fg_bright(i: int)
    requires
        0 <= i < 8,
    ensures
        fg_code_of("bright_"@ + basic_colors()[i]) == Some(seq!['9', octal_digit(i)]),
{
    reveal_strlit("bright_");
    if i == 0 {
        reveal_strlit("black");
        reveal_strlit("bright_black");
        reveal_strlit("90");
        assert("bright_"@ + "black"@ =~= "bright_black"@);
        assert(basic_colors()[i] == "black"@);
        reveal_strlit("black");
        assert("bright_black"@.len() != "black"@.len());
        reveal_strlit("red");
        assert("bright_black"@.len() != "red"@.len());
        reveal_strlit("green");
        assert("bright_black"@.len() != "green"@.len());
        reveal_strlit("yellow");
        assert("bright_black"@.len() != "yellow"@.len());
        reveal_strlit("blue");
        assert("bright_black"@.len() != "blue"@.len());
        reveal_strlit("magenta");
        assert("bright_black"@.len() != "magenta"@.len());
        reveal_strlit("cyan");
        assert("bright_black"@.len() != "cyan"@.len());
        reveal_strlit("white");
        assert("bright_black"@.len() != "white"@.len());
        assert("90"@ =~= seq!['9', octal_digit(i)]);
    }
    if i == 1 {
        reveal_strlit("red");
        reveal_strlit("bright_red");
        reveal_strlit("91");
        assert("bright_"@ + "red"@ =~= "bright_red"@);
        assert(basic_colors()[i] == "red"@);
        reveal_strlit("black");
        assert("bright_red"@.len() != "black"@.len());
        reveal_strlit("red");
        assert("bright_red"@.len() != "red"@.len());
        reveal_strlit("green");
        assert("bright_red"@.len() != "green"@.len());
        reveal_strlit("yellow");
        assert("bright_red"@.len() != "yellow"@.len());
        reveal_strlit("blue");
        assert("bright_red"@.len() != "blue"@.len());
        reveal_strlit("magenta");
        assert("bright_red"@.len() != "magenta"@.len());
        reveal_strlit("cyan");
        assert("bright_red"@.len() != "cyan"@.len());
        reveal_strlit("white");
        assert("bright_red"@.len() != "white"@.len());
        reveal_strlit("bright_black");
        assert("bright_red"@.len() != "bright_black"@.len());
        assert("91"@ =~= seq!['9', octal_digit(i)]);
    }
    if i == 2 {
        reveal_strlit("green");
        reveal_strlit("bright_green");
        reveal_strlit("92");
        assert("bright_"@ + "green"@ =~= "bright_green"@);
        assert(basic_colors()[i] == "green"@);
        reveal_strlit("black");
        assert("bright_green"@.len() != "black"@.len());
        reveal_strlit("red");
        assert("bright_green"@.len() != "red"@.len());
        reveal_strlit("green");
        assert("bright_green"@.len() != "green"@.len());
        reveal_strlit("yellow");
        assert("bright_green"@.len() != "yellow"@.len());
        reveal_strlit("blue");
        assert("bright_green"@.len() != "blue"@.len());
        reveal_strlit("magenta");
        assert("bright_green"@.len() != "magenta"@.len());
        reveal_strlit("cyan");
        assert("bright_green"@.len() != "cyan"@.len());
        reveal_strlit("white");
        assert("bright_green"@.len() != "white"@.len());
        reveal_strlit("bright_black");
        assert("bright_green"@[7] != "bright_black"@[7]);
        reveal_strlit("bright_red");
        assert("bright_green"@.len() != "bright_red"@.len());
        assert("92"@ =~= seq!['9', octal_digit(i)]);
    }
    if i == 3 {
        reveal_strlit("yellow");
        reveal_strlit("bright_yellow");
        reveal_strlit("93");
        assert("bright_"@ + "yellow"@ =~= "bright_yellow"@);
        assert(basic_colors()[i] == "yellow"@);
        reveal_strlit("black");
        assert("bright_yellow"@.len() != "black"@.len());
        reveal_strlit("red");
        assert("bright_yellow"@.len() != "red"@.len());
        reveal_strlit("green");
        assert("bright_yellow"@.len() != "green"@.len());
        reveal_strlit("yellow");
        assert("bright_yellow"@.len() != "yellow"@.len());
        reveal_strlit("blue");
        assert("bright_yellow"@.len() != "blue"@.len());
        reveal_strlit("magenta");
        assert("bright_yellow"@.len() != "magenta"@.len());
        reveal_strlit("cyan");
        assert("bright_yellow"@.len() != "cyan"@.len());
        reveal_strlit("white");
        assert("bright_yellow"@.len() != "white"@.len());
        reveal_strlit("bright_black");
        assert("bright_yellow"@.len() != "bright_black"@.len());
        reveal_strlit("bright_red");
        assert("bright_yellow"@.len() != "bright_red"@.len());
        reveal_strlit("bright_green");
        assert("bright_yellow"@.len() != "bright_green"@.len());
        assert("93"@ =~= seq!['9', octal_digit(i)]);
    }
    if i == 4 {
        reveal_strlit("blue");
        reveal_strlit("bright_blue");
        reveal_strlit("94");
        assert("bright_"@ + "blue"@ =~= "bright_blue"@);
        assert(basic_colors()[i] == "blue"@);
        reveal_strlit("black");
        assert("bright_blue"@.len() != "black"@.len());
        reveal_strlit("red");
        assert("bright_blue"@.len() != "red"@.len());
        reveal_strlit("green");
        assert("bright_blue"@.len() != "green"@.len());
        reveal_strlit("yellow");
        assert("bright_blue"@.len() != "yellow"@.len());
        reveal_strlit("blue");
        assert("bright_blue"@.len() != "blue"@.len());
        reveal_strlit("magenta");
        assert("bright_blue"@.len() != "magenta"@.len());
        reveal_strlit("cyan");
        assert("bright_blue"@.len() != "cyan"@.len());
        reveal_strlit("white");
        assert("bright_blue"@.len() != "white"@.len());
        reveal_strlit("bright_black");
        assert("bright_blue"@.len() != "bright_black"@.len());
        reveal_strlit("bright_red");
        assert("bright_blue"@.len() != "bright_red"@.len());
        reveal_strlit("bright_green");
        assert("bright_blue"@.len() != "bright_green"@.len());
        reveal_strlit("bright_yellow");
        assert("bright_blue"@.len() != "bright_yellow"@.len());
        assert("94"@ =~= seq!['9', octal_digit(i)]);
    }
    if i == 5 {
        reveal_strlit("magenta");
        reveal_strlit("bright_magenta");
        reveal_strlit("95");
        assert("bright_"@ + "magenta"@ =~= "bright_magenta"@);
        assert(basic_colors()[i] == "magenta"@);
        reveal_strlit("black");
        assert("bright_magenta"@.len() != "black"@.len());
        reveal_strlit("red");
        assert("bright_magenta"@.len() != "red"@.len());
        reveal_strlit("green");
        assert("bright_magenta"@.len() != "green"@.len());
        reveal_strlit("yellow");
        assert("bright_magenta"@.len() != "yellow"@.len());
        reveal_strlit("blue");
        assert("bright_magenta"@.len() != "blue"@.len());
        reveal_strlit("magenta");
        assert("bright_magenta"@.len() != "magenta"@.len());
        reveal_strlit("cyan");
        assert("bright_magenta"@.len() != "cyan"@.len());
        reveal_strlit("white");
        assert("bright_magenta"@.len() != "white"@.len());
        reveal_strlit("bright_black");
        assert("bright_magenta"@.len() != "bright_black"@.len());
        reveal_strlit("bright_red");
        assert("bright_magenta"@.len() != "bright_red"@.len());
        reveal_strlit("bright_green");
        assert("bright_magenta"@.len() != "bright_green"@.len());
        reveal_strlit("bright_yellow");
        assert("bright_magenta"@.len() != "bright_yellow"@.len());
        reveal_strlit("bright_blue");
        assert("bright_magenta"@.len() != "bright_blue"@.len());
        assert("95"@ =~= seq!['9', octal_digit(i)]);
    }
    if i == 6 {
        reveal_strlit("cyan");
        reveal_strlit("bright_cyan");
        reveal_strlit("96");
        assert("bright_"@ + "cyan"@ =~= "bright_cyan"@);
        assert(basic_colors()[i] == "cyan"@);
        reveal_strlit("black");
        assert("bright_cyan"@.len() != "black"@.len());
        reveal_strlit("red");
        assert("bright_cyan"@.len() != "red"@.len());
        reveal_strlit("green");
        assert("bright_cyan"@.len() != "green"@.len());
        reveal_strlit("yellow");
        assert("bright_cyan"@.len() != "yellow"@.len());
        reveal_strlit("blue");
        assert("bright_cyan"@.len() != "blue"@.len());
        reveal_strlit("magenta");
        assert("bright_cyan"@.len() != "magenta"@.len());
        reveal_strlit("cyan");
        assert("bright_cyan"@.len() != "cyan"@.len());
        reveal_strlit("white");
        assert("bright_cyan"@.len() != "white"@.len());
        reveal_strlit("bright_black");
        assert("bright_cyan"@.len() != "bright_black"@.len());
        reveal_strlit("bright_red");
        assert("bright_cyan"@.len() != "bright_red"@.len());
        reveal_strlit("bright_green");
        assert("bright_cyan"@.len() != "bright_green"@.len());
        reveal_strlit("bright_yellow");
        assert("bright_cyan"@.len() != "bright_yellow"@.len());
        reveal_strlit("bright_blue");
        assert("bright_cyan"@[7] != "bright_blue"@[7]);
        reveal_strlit("bright_magenta");
        assert("bright_cyan"@.len() != "bright_magenta"@.len());
        assert("96"@ =~= seq!['9', octal_digit(i)]);
    }
    if i == 7 {
        reveal_strlit("white");
        reveal_strlit("bright_white");
        reveal_strlit("97");
        assert("bright_"@ + "white"@ =~= "bright_white"@);
        assert(basic_colors()[i] == "white"@);
        reveal_strlit("black");
        assert("bright_white"@.len() != "black"@.len());
        reveal_strlit("red");
        assert("bright_white"@.len() != "red"@.len());
        reveal_strlit("green");
        assert("bright_white"@.len() != "green"@.len());
        reveal_strlit("yellow");
        assert("bright_white"@.len() != "yellow"@.len());
        reveal_strlit("blue");
        assert("bright_white"@.len() != "blue"@.len());
        reveal_strlit("magenta");
        assert("bright_white"@.len() != "magenta"@.len());
        reveal_strlit("cyan");
        assert("bright_white"@.len() != "cyan"@.len());
        reveal_strlit("white");
        assert("bright_white"@.len() != "white"@.len());
        reveal_strlit("bright_black");
        assert("bright_white"@[7] != "bright_black"@[7]);
        reveal_strlit("bright_red");
        assert("bright_white"@.len() != "bright_red"@.len());
        reveal_strlit("bright_green");
        assert("bright_white"@[7] != "bright_green"@[7]);
        reveal_strlit("bright_yellow");
        assert("bright_white"@.len() != "bright_yellow"@.len());
        reveal_strlit("bright_blue");
        assert("bright_white"@.len() != "bright_blue"@.len());
        reveal_strlit("bright_magenta");
        assert("bright_white"@.len() != "bright_magenta"@.len());
        reveal_strlit("bright_cyan");
        assert("bright_white"@.len() != "bright_cyan"@.len());
        assert("97"@ =~= seq!['9', octal_digit(i)]);
    }
}

proof fn lemma_bg_bright(i: int)
    requires
        0 <= i < 8,
    ensures
        bg_code_of("bright_"@ + basic_colors()[i]) == Some(seq!['1', '0', octal_digit(i)]),
{
    reveal_strlit("bright_");
    if i == 0 {
        reveal_strlit("black");
        reveal_strlit("bright_black");
        reveal_strlit("100");
        assert("bright_"@ + "black"@ =~= "bright_black"@);
        assert(basic_colors()[i] == "black"@);
        reveal_strlit("black");
        assert("bright_black"@.len() != "black"@.len());
        reveal_strlit("red");
        assert("bright_black"@.len() != "red"@.len());
        reveal_strlit("green");
        assert("bright_black"@.len() != "green"@.len());
        reveal_strlit("yellow");
        assert("bright_black"@.len() != "yellow"@.len());
        reveal_strlit("blue");
        assert("bright_black"@.len() != "blue"@.len());
        reveal_strlit("magenta");
        assert("bright_black"@.len() != "magenta"@.len());
        reveal_strlit("cyan");
        assert("bright_black"@.len() != "cyan"@.len());
        reveal_strlit("white");
        assert("bright_black"@.len() != "white"@.len());
        assert("100"@ =~= seq!['1', '0', octal_digit(i)]);
    }
    if i == 1 {
        reveal_strlit("red");
        reveal_strlit("bright_red");
        reveal_strlit("101");
        assert("bright_"@ + "red"@ =~= "bright_red"@);
        assert(basic_colors()[i] == "red"@);
        reveal_strlit("black");
        assert("bright_red"@.len() != "black"@.len());
        reveal_strlit("red");
        assert("bright_red"@.len() != "red"@.len());
        reveal_strlit("green");
        assert("bright_red"@.len() != "green"@.len());
        reveal_strlit("yellow");
        assert("bright_red"@.len() != "yellow"@.len());
        reveal_strlit("blue");
        assert("bright_red"@.len() != "blue"@.len());
        reveal_strlit("magenta");
        assert("bright_red"@.len() != "magenta"@.len());
        reveal_strlit("cyan");
        assert("bright_red"@.len() != "cyan"@.len());
        reveal_strlit("white");
        assert("bright_red"@.len() != "white"@.len());
        reveal_strlit("bright_black");
        assert("bright_red"@.len() != "bright_black"@.len());
        assert("101"@ =~= seq!['1', '0', octal_digit(i)]);
    }
    if i == 2 {
        reveal_strlit("green");
        reveal_strlit("bright_green");
        reveal_strlit("102");
        assert("bright_"@ + "green"@ =~= "bright_green"@);
        assert(basic_colors()[i] == "green"@);
        reveal_strlit("black");
        assert("bright_green"@.len() != "black"@.len());
        reveal_strlit("red");
        assert("bright_green"@.len() != "red"@.len());
        reveal_strlit("green");
        assert("bright_green"@.len() != "green"@.len());
        reveal_strlit("yellow");
        assert("bright_green"@.len() != "yellow"@.len());
        reveal_strlit("blue");
        assert("bright_green"@.len() != "blue"@.len());
        reveal_strlit("magenta");
        assert("bright_green"@.len() != "magenta"@.len());
        reveal_strlit("cyan");
        assert("bright_green"@.len() != "cyan"@.len());
        reveal_strlit("white");
        assert("bright_green"@.len() != "white"@.len());
        reveal_strlit("bright_black");
        assert("bright_green"@[7] != "bright_black"@[7]);
        reveal_strlit("bright_red");
        assert("bright_green"@.len() != "bright_red"@.len());
        assert("102"@ =~= seq!['1', '0', octal_digit(i)]);
    }
    if i == 3 {
        reveal_strlit("yellow");
        reveal_strlit("bright_yellow");
        reveal_strlit("103");
        assert("bright_"@ + "yellow"@ =~= "bright_yellow"@);
        assert(basic_colors()[i] == "yellow"@);
        reveal_strlit("black");
        assert("bright_yellow"@.len() != "black"@.len());
        reveal_strlit("red");
        assert("bright_yellow"@.len() != "red"@.len());
        reveal_strlit("green");
        assert("bright_yellow"@.len() != "green"@.len());
        reveal_strlit("yellow");
        assert("bright_yellow"@.len() != "yellow"@.len());
        reveal_strlit("blue");
        assert("bright_yellow"@.len() != "blue"@.len());
        reveal_strlit("magenta");
        assert("bright_yellow"@.len() != "magenta"@.len());
        reveal_strlit("cyan");
        assert("bright_yellow"@.len() != "cyan"@.len());
        reveal_strlit("white");
        assert("bright_yellow"@.len() != "white"@.len());
        reveal_strlit("bright_black");
        assert("bright_yellow"@.len() != "bright_black"@.len());
        reveal_strlit("bright_red");
        assert("bright_yellow"@.len() != "bright_red"@.len());
        reveal_strlit("bright_green");
        assert("bright_yellow"@.len() != "bright_green"@.len());
        assert("103"@ =~= seq!['1', '0', octal_digit(i)]);
    }
    if i == 4 {
        reveal_strlit("blue");
        reveal_strlit("bright_blue");
        reveal_strlit("104");
        assert("bright_"@ + "blue"@ =~= "bright_blue"@);
        assert(basic_colors()[i] == "blue"@);
        reveal_strlit("black");
        assert("bright_blue"@.len() != "black"@.len());
        reveal_strlit("red");
        assert("bright_blue"@.len() != "red"@.len());
        reveal_strlit("green");
        assert("bright_blue"@.len() != "green"@.len());
        reveal_strlit("yellow");
        assert("bright_blue"@.len() != "yellow"@.len());
        reveal_strlit("blue");
        assert("bright_blue"@.len() != "blue"@.len());
        reveal_strlit("magenta");
        assert("bright_blue"@.len() != "magenta"@.len());
        reveal_strlit("cyan");
        assert("bright_blue"@.len() != "cyan"@.len());
        reveal_strlit("white");
        assert("bright_blue"@.len() != "white"@.len());
        reveal_strlit("bright_black");
        assert("bright_blue"@.len() != "bright_black"@.len());
        reveal_strlit("bright_red");
        assert("bright_blue"@.len() != "bright_red"@.len());
        reveal_strlit("bright_green");
        assert("bright_blue"@.len() != "bright_green"@.len());
        reveal_strlit("bright_yellow");
        assert("bright_blue"@.len() != "bright_yellow"@.len());
        assert("104"@ =~= seq!['1', '0', octal_digit(i)]);
    }
    if i == 5 {
        reveal_strlit("magenta");
        reveal_strlit("bright_magenta");
        reveal_strlit("105");
        assert("bright_"@ + "magenta"@ =~= "bright_magenta"@);
        assert(basic_colors()[i] == "magenta"@);
        reveal_strlit("black");
        assert("bright_magenta"@.len() != "black"@.len());
        reveal_strlit("red");
        assert("bright_magenta"@.len() != "red"@.len());
        reveal_strlit("green");
        assert("bright_magenta"@.len() != "green"@.len());
        reveal_strlit("yellow");
        assert("bright_magenta"@.len() != "yellow"@.len());
        reveal_strlit("blue");
        assert("bright_magenta"@.len() != "blue"@.len());
        reveal_strlit("magenta");
        assert("bright_magenta"@.len() != "magenta"@.len());
        reveal_strlit("cyan");
        assert("bright_magenta"@.len() != "cyan"@.len());
        reveal_strlit("white");
        assert("bright_magenta"@.len() != "white"@.len());
        reveal_strlit("bright_black");
        assert("bright_magenta"@.len() != "bright_black"@.len());
        reveal_strlit("bright_red");
        assert("bright_magenta"@.len() != "bright_red"@.len());
        reveal_strlit("bright_green");
        assert("bright_magenta"@.len() != "bright_green"@.len());
        reveal_strlit("bright_yellow");
        assert("bright_magenta"@.len() != "bright_yellow"@.len());
        reveal_strlit("bright_blue");
        assert("bright_magenta"@.len() != "bright_blue"@.len());
        assert("105"@ =~= seq!['1', '0', octal_digit(i)]);
    }
    if i == 6 {
        reveal_strlit("cyan");
        reveal_strlit("bright_cyan");
        reveal_strlit("106");
        assert("bright_"@ + "cyan"@ =~= "bright_cyan"@);
        assert(basic_colors()[i] == "cyan"@);
        reveal_strlit("black");
        assert("bright_cyan"@.len() != "black"@.len());
        reveal_strlit("red");
        assert("bright_cyan"@.len() != "red"@.len());
        reveal_strlit("green");
        assert("bright_cyan"@.len() != "green"@.len());
        reveal_strlit("yellow");
        assert("bright_cyan"@.len() != "yellow"@.len());
        reveal_strlit("blue");
        assert("bright_cyan"@.len() != "blue"@.len());
        reveal_strlit("magenta");
        assert("bright_cyan"@.len() != "magenta"@.len());
        reveal_strlit("cyan");
        assert("bright_cyan"@.len() != "cyan"@.len());
        reveal_strlit("white");
        assert("bright_cyan"@.len() != "white"@.len());
        reveal_strlit("bright_black");
        assert("bright_cyan"@.len() != "bright_black"@.len());
        reveal_strlit("bright_red");
        assert("bright_cyan"@.len() != "bright_red"@.len());
        reveal_strlit("bright_green");
        assert("bright_cyan"@.len() != "bright_green"@.len());
        reveal_strlit("bright_yellow");
        assert("bright_cyan"@.len() != "bright_yellow"@.len());
        reveal_strlit("bright_blue");
        assert("bright_cyan"@[7] != "bright_blue"@[7]);
        reveal_strlit("bright_magenta");
        assert("bright_cyan"@.len() != "bright_magenta"@.len());
        assert("106"@ =~= seq!['1', '0', octal_digit(i)]);
    }
    if i == 7 {
        reveal_strlit("white");
        reveal_strlit("bright_white");
        reveal_strlit("107");
        assert("bright_"@ + "white"@ =~= "bright_white"@);
        assert(basic_colors()[i] == "white"@);
        reveal_strlit("black");
        assert("bright_white"@.len() != "black"@.len());
        reveal_strlit("red");
        assert("bright_white"@.len() != "red"@.len());
        reveal_strlit("green");
        assert("bright_white"@.len() != "green"@.len());
        reveal_strlit("yellow");
        assert("bright_white"@.len() != "yellow"@.len());
        reveal_strlit("blue");
        assert("bright_white"@.len() != "blue"@.len());
        reveal_strlit("magenta");
        assert("bright_white"@.len() != "magenta"@.len());
        reveal_strlit("cyan");
        assert("bright_white"@.len() != "cyan"@.len());
        reveal_strlit("white");
        assert("bright_white"@.len() != "white"@.len());
        reveal_strlit("bright_black");
        assert("bright_white"@[7] != "bright_black"@[7]);
        reveal_strlit("bright_red");
        assert("bright_white"@.len() != "bright_red"@.len());
        reveal_strlit("bright_green");
        assert("bright_white"@[7] != "bright_green"@[7]);
        reveal_strlit("bright_yellow");
        assert("bright_white"@.len() != "bright_yellow"@.len());
        reveal_strlit("bright_blue");
        assert("bright_white"@.len() != "bright_blue"@.len());
        reveal_strlit("bright_magenta");
        assert("bright_white"@.len() != "bright_magenta"@.len());
        reveal_strlit("bright_cyan");
        assert("bright_white"@.len() != "bright_cyan"@.len());
        assert("107"@ =~= seq!['1', '0', octal_digit(i)]);
    }
}

/// The colours are the standard SGR ones: the `i`-th basic colour is foreground
/// `3i` and background `4i`, its bright form foreground `9i` and background `10i`.
pub proof fn law_colors_are_standard_sgr(i: int)
    requires
        0 <= i < 8,
    ensures
        fg_code_of(basic_colors()[i]) == Some(seq!['3', octal_digit(i)]),
        bg_code_of(basic_colors()[i]) == Some(seq!['4', octal_digit(i)]),
        fg_code_of("bright_"@ + basic_colors()[i]) == Some(seq!['9', octal_digit(i)]),
        bg_code_of("bright_"@ + basic_colors()[i]) == Some(seq!['1', '0', octal_digit(i)]),
{
    lemma_fg_basic(i);
    lemma_bg_basic(i);
    lemma_fg_bright(i);
    lemma_bg_bright(i);
}

/// Distinct basic colours select distinct foreground and background codes.
pub proof fn law_distinct_colors_distinct_codes(i: int, j: int)
    requires
        0 <= i < 8,
        0 <= j < 8,
        i != j,
    ensures
        fg_code_of(basic_colors()[i]) != fg_code_of(basic_colors()[j]),
        bg_code_of(basic_colors()[i]) != bg_code_of(basic_colors()[j]),
{
    law_colors_are_standard_sgr(i);
    law_colors_are_standard_sgr(j);
    assert(seq!['3', octal_digit(i)][1] != seq!['3', octal_digit(j)][1]);
    assert(seq!['4', octal_digit(i)][1] != seq!['4', octal_digit(j)][1]);
}

/// The SGR code that selects a background colour.
pub open spec fn bg_code_of(color: Seq<char>) -> Option<Seq<char>> {
    if color == "black"@ {
        Some("40"@)
    } else if color == "red"@ {
        Some("41"@)
    } else if color == "green"@ {
        Some("42"@)
    } else if color == "yellow"@ {
        Some("43"@)
    } else if color == "blue"@ {
        Some("44"@)
    } else if color == "magenta"@ {
        Some("45"@)
    } else if color == "cyan"@ {
        Some("46"@)
    } else if color == "white"@ {
        Some("47"@)
    } else if color == "bright_black"@ {
        Some("100"@)
    } else if color == "bright_red"@ {
        Some("101"@)
    } else if color == "bright_green"@ {
        Some("102"@)
    } else if color == "bright_yellow"@ {
        Some("103"@)
    } else if color == "bright_blue"@ {
        Some("104"@)
    } else if color == "bright_magenta"@ {
        Some("105"@)
    } else if color == "bright_cyan"@ {
        Some("106"@)
    } else if color == "bright_white"@ {
        Some("107"@)
    } else {
        None
    }
}

pub open spec fn opt_seq(o: Option<Seq<char>>) -> Seq<Seq<char>> {
    match o {
        Some(x) => seq![x],
        None => Seq::empty(),
    }
}

/// The SGR codes a style needs: bold, then foreground, then background; unknown
/// colour names select nothing.
pub open spec fn sgr_codes(style: StyleView) -> Seq<Seq<char>> {
    (if style.bold {
        seq!["1"@]
    } else {
        Seq::empty()
    }) + opt_seq(
        match style.fg {
            Some(c) => fg_code_of(c),
            None => None,
        },
    ) + opt_seq(
        match style.bg {
            Some(c) => bg_code_of(c),
            None => None,
        },
    )
}

pub open spec fn csi() -> Seq<char> {
    seq!['\x1b', '[']
}

/// The escape that starts a style, if the style selects anything.
pub open spec fn start_sgr_of(style: StyleView) -> Option<Seq<char>> {
    let codes = sgr_codes(style);
    if codes.len() == 0 {
        None
    } else {
        Some(csi() + join_with(codes, seq![';']) + seq!['m'])
    }
}

/// The escape that resets all styling.
pub open spec fn reset_sgr() -> Seq<char> {
    csi() + seq!['0', 'm']
}

/// `s` marked as not taking up columns.
pub open spec fn non_printing(s: Seq<char>) -> Seq<char> {
    seq!['%', '{'] + s + seq!['%', '}']
}

/// Already escaped text drawn in a style.
pub open spec fn styled(text: Seq<char>, style: StyleView) -> Seq<char> {
    match start_sgr_of(style) {
        None => text,
        Some(start) => non_printing(start) + text + non_printing(reset_sgr()),
    }
}

/// The lowered parts, one after another.
pub open spec fn lowered_parts(parts: Seq<SegmentPartView>) -> Seq<char>
    decreases parts.len(),
{
    if parts.len() == 0 {
        Seq::empty()
    } else {
        lowered_parts(parts.drop_last()) + styled(escaped(parts.last().text), parts.last().style)
    }
}

/// The prompt text a segment lowers to.
pub open spec fn lowered_segment(segment: SegmentContentView) -> Seq<char> {
    if parts_in_use(segment) {
        lowered_parts(segment.parts)
    } else {
        styled(escaped(segment.text), segment.style)
    }
}

pub open spec fn opt_str_view(o: Option<&str>) -> Option<Seq<char>> {
    match o {
        Some(s) => Some(s@),
        None => None,
    }
}

/// Doubles every `%` so that zsh prints the text as it is.
pub fn escape_prompt_text(input: &str) -> (r: String)
    ensures
        r@ == escaped(input@),
{
    let chars = chars_of(input);
    let mut out = String::new();
    let mut i: usize = 0;
    while i < chars.len()
        invariant
            i <= chars.len(),
            chars@ == input@,
            out@ == escaped(input@.take(i as int)),
        decreases chars.len() - i,
    {
        let c = chars[i];
        let ghost before = out@;
        proof {
            assert(input@.take(i + 1).drop_last() =~= input@.take(i as int));
            assert(input@.take(i + 1).last() == c);
        }
        if c == '%' {
            push_char(&mut out, '%');
            push_char(&mut out, '%');
            assert(out@ =~= before + seq!['%', '%']);
        } else {
            push_char(&mut out, c);
            assert(out@ =~= before + seq![c]);
        }
        i += 1;
    }
    assert(input@.take(i as int) =~= input@);
    out
}

/// The SGR code of a foreground colour name.
pub fn fg_code(color: &str) -> (r: Option<&'static str>)
    ensures
        opt_str_view(r) == fg_code_of(color@),
{
    if str_eq(color, "black") {
        Some("30")
    } else if str_eq(color, "red") {
        Some("31")
    } else if str_eq(color, "green") {
        Some("32")
    } else if str_eq(color, "yellow") {
        Some("33")
    } else if str_eq(color, "blue") {
        Some("34")
    } else if str_eq(color, "magenta") {
        Some("35")
    } else if str_eq(color, "cyan") {
        Some("36")
    } else if str_eq(color, "white") {
        Some("37")
    } else if str_eq(color, "bright_black") {
        Some("90")
    } else if str_eq(color, "bright_red") {
        Some("91")
    } else if str_eq(color, "bright_green") {
        Some("92")
    } else if str_eq(color, "bright_yellow") {
        Some("93")
    } else if str_eq(color, "bright_blue") {
        Some("94")
    } else if str_eq(color, "bright_magenta") {
        Some("95")
    } else if str_eq(color, "bright_cyan") {
        Some("96")
    } else if str_eq(color, "bright_white") {
        Some("97")
    } else {
        None
    }
}

/// The SGR code of a background colour name.
pub fn bg_code(color: &str) -> (r: Option<&'static str>)
    ensures
        opt_str_view(r) == bg_code_of(color@),
{
    if str_eq(color, "black") {
        Some("40")
    } else if str_eq(color, "red") {
        Some("41")
    } else if str_eq(color, "green") {
        Some("42")
    } else if str_eq(color, "yellow") {
        Some("43")
    } else if str_eq(color, "blue") {
        Some("44")
    } else if str_eq(color, "magenta") {
        Some("45")
    } else if str_eq(color, "cyan") {
        Some("46")
    } else if str_eq(color, "white") {
        Some("47")
    } else if str_eq(color, "bright_black") {
        Some("100")
    } else if str_eq(color, "bright_red") {
        Some("101")
    } else if str_eq(color, "bright_green") {
        Some("102")
    } else if str_eq(color, "bright_yellow") {
        Some("103")
    } else if str_eq(color, "bright_blue") {
        Some("104")
    } else if str_eq(color, "bright_magenta") {
        Some("105")
    } else if str_eq(color, "bright_cyan") {
        Some("106")
    } else if str_eq(color, "bright_white") {
        Some("107")
    } else {
        None
    }
}

/// The escape that starts `style`, if it selects anything.
pub fn start_sgr(style: &Style) -> (r: Option<String>)
    ensures
        crate::config::opt_view(r) == start_sgr_of(style@),
{
    let mut codes: Vec<&'static str> = Vec::new();
    if style.bold {
        codes.push("1");
    }
    let fg = match &style.fg {
        Some(c) => fg_code(c.as_str()),
        None => None,
    };
    if let Some(code) = fg {
        codes.push(code);
    }
    let bg = match &style.bg {
        Some(c) => bg_code(c.as_str()),
        None => None,
    };
    if let Some(code) = bg {
        codes.push(code);
    }
    let ghost cv = Seq::new(codes@.len(), |i: int| codes@[i]@);
    proof {
        let sv = style@;
        let a: Seq<Seq<char>> = if sv.bold {
            seq!["1"@]
        } else {
            Seq::empty()
        };
        assert(cv =~= sgr_codes(sv));
    }
    if codes.len() == 0 {
        return None;
    }
    let mut out = String::new();
    push_char(&mut out, '\x1b');
    push_char(&mut out, '[');
    let mut i: usize = 0;
    while i < codes.len()
        invariant
            0 < codes.len(),
            i <= codes.len(),
            cv == Seq::new(codes@.len(), |k: int| codes@[k]@),
            i == 0 ==> out@ == csi(),
            i > 0 ==> out@ == csi() + join_with(cv.take(i as int), seq![';']),
        decreases codes.len() - i,
    {
        let ghost before = out@;
        if i > 0 {
            push_char(&mut out, ';');
        }
        push_str(&mut out, codes[i]);
        proof {
            lemma_join_push(cv.take(i as int), cv[i as int], ';');
            assert(cv.take(i + 1) =~= cv.take(i as int).push(cv[i as int]));
            if i == 0 {
                assert(cv.take(1) =~= seq![cv[0]]);
                assert(join_with(seq![cv[0]], seq![';']) == cv[0]);
            }
        }
        i += 1;
    }
    push_char(&mut out, 'm');
    assert(cv.take(i as int) =~= cv);
    Some(out)
}

/// Joining one more field appends the separator and the field.
pub proof fn lemma_join_push(fields: Seq<Seq<char>>, x: Seq<char>, sep: char)
    ensures
        fields.len() > 0 ==> join_with(fields.push(x), seq![sep]) == join_with(fields, seq![sep])
            + seq![sep] + x,
        fields.len() == 0 ==> join_with(fields.push(x), seq![sep]) == x,
    decreases fields.len(),
{
    if fields.len() == 1 {
        assert(fields.push(x).drop_first() =~= seq![x]);
        assert(join_with(seq![x], seq![sep]) == x);
        assert(fields.push(x)[0] == fields[0]);
    } else if fields.len() > 1 {
        let rest = fields.drop_first();
        lemma_join_push(rest, x, sep);
        assert(fields.push(x).drop_first() =~= rest.push(x));
        assert(fields.push(x)[0] == fields[0]);
        assert(fields[0] + seq![sep] + (join_with(rest, seq![sep]) + seq![sep] + x) =~= (fields[0]
            + seq![sep] + join_with(rest, seq![sep])) + seq![sep] + x);
    }
}

/// `input` wrapped so that zsh does not count it as visible.
pub fn wrap_non_printing(input: &str) -> (r: String)
    ensures
        r@ == non_printing(input@),
{
    let mut out = String::new();
    push_char(&mut out, '%');
    push_char(&mut out, '{');
    push_str(&mut out, input);
    push_char(&mut out, '%');
    push_char(&mut out, '}');
    assert(out@ =~= non_printing(input@));
    out
}

/// Already escaped text drawn in a style.
pub fn lower_text(text: &str, style: &Style) -> (r: String)
    ensures
        r@ == styled(text@, style@),
{
    match start_sgr(style) {
        None => crate::text::copy_str(text),
        Some(start) => {
            let mut out = wrap_non_printing(start.as_str());
            push_str(&mut out, text);
            let mut reset = String::new();
            push_char(&mut reset, '\x1b');
            push_char(&mut reset, '[');
            push_char(&mut reset, '0');
            push_char(&mut reset, 'm');
            assert(reset@ =~= reset_sgr());
            let tail = wrap_non_printing(reset.as_str());
            push_str(&mut out, tail.as_str());
            out
        },
    }
}

/// One part, escaped and styled.
pub fn lower_part(part: &SegmentPart) -> (r: String)
    ensures
        r@ == styled(escaped(part.text@), part.style@),
{
    let text = escape_prompt_text(part.text.as_str());
    lower_text(text.as_str(), &part.style)
}

/// The prompt text of a segment: its parts one after another when they are in
/// use, else its text in its style.
pub fn lower_segment(segment: &SegmentContent) -> (r: String)
    ensures
        r@ == lowered_segment(segment@),
{
    if segment.uses_parts() {
        let mut out = String::new();
        let mut i: usize = 0;
        while i < segment.parts.len()
            invariant
                i <= segment.parts.len(),
                out@ == lowered_parts(segment@.parts.take(i as int)),
            decreases segment.parts.len() - i,
        {
            let piece = lower_part(&segment.parts[i]);
            push_str(&mut out, piece.as_str());
            proof {
                let pv = segment@.parts;
                assert(pv.take(i + 1).drop_last() =~= pv.take(i as int));
                assert(pv.take(i + 1).last() == segment.parts@[i as int]@);
            }
            i += 1;
        }
        assert(segment@.parts.take(i as int) =~= segment@.parts);
        return out;
    }
    let text = escape_prompt_text(segment.text.as_str());
    lower_text(text.as_str(), &segment.style)
}

} // verus!
