//! The colour themes of the terminal.

use vstd::prelude::*;
use crate::text::same_text;

verus! {

/// A theme: the colour for each part of the terminal, by the part's name.
pub type Theme = Vec<(String, String)>;

/// A theme as a mathematical value.
pub open spec fn colours(theme: Seq<(String, String)>) -> Seq<(Seq<char>, Seq<char>)> {
    Seq::new(theme.len(), |i: int| (theme[i].0@, theme[i].1@))
}

/// The colour that a theme gives a part, if it names the part.
pub open spec fn colour_of(theme: Seq<(Seq<char>, Seq<char>)>, part: Seq<char>) -> Option<
    Seq<char>,
>
    decreases theme.len(),
{
    if theme.len() == 0 {
        None
    } else if theme[0].0 == part {
        Some(theme[0].1)
    } else {
        colour_of(theme.drop_first(), part)
    }
}

/// The parts of the terminal that a theme colours, in the order in which a
/// theme lists them.
pub open spec fn parts() -> Seq<Seq<char>> {
    seq![
        "background"@,
        "foreground"@,
        "cursor"@,
        "selection"@,
        "black"@,
        "red"@,
        "green"@,
        "yellow"@,
        "blue"@,
        "magenta"@,
        "cyan"@,
        "white"@,
        "brightBlack"@,
        "brightRed"@,
        "brightGreen"@,
        "brightYellow"@,
        "brightBlue"@,
        "brightMagenta"@,
        "brightCyan"@,
        "brightWhite"@,
    ]
}

/// The parts that a theme names, in its order.
pub open spec fn parts_of(theme: Seq<(Seq<char>, Seq<char>)>) -> Seq<Seq<char>> {
    Seq::new(theme.len(), |i: int| theme[i].0)
}

/// No part is listed twice.
pub proof fn lemma_parts_distinct()
    ensures
        forall|i: int, j: int|
            0 <= i < j < parts().len() ==> #[trigger] parts()[i] != #[trigger] parts()[j],
{
    reveal_strlit("background");
    reveal_strlit("foreground");
    reveal_strlit("cursor");
    reveal_strlit("selection");
    reveal_strlit("black");
    reveal_strlit("red");
    reveal_strlit("green");
    reveal_strlit("yellow");
    reveal_strlit("blue");
    reveal_strlit("magenta");
    reveal_strlit("cyan");
    reveal_strlit("white");
    reveal_strlit("brightBlack");
    reveal_strlit("brightRed");
    reveal_strlit("brightGreen");
    reveal_strlit("brightYellow");
    reveal_strlit("brightBlue");
    reveal_strlit("brightMagenta");
    reveal_strlit("brightCyan");
    reveal_strlit("brightWhite");
    assert(parts()[0].len() == 10 && parts()[0][0] == 'b' && parts()[0][6] == 'o');
    assert(parts()[1].len() == 10 && parts()[1][0] == 'f' && parts()[1][6] == 'o');
    assert(parts()[2].len() == 6 && parts()[2][0] == 'c');
    assert(parts()[3].len() == 9 && parts()[3][0] == 's' && parts()[3][6] == 'i');
    assert(parts()[4].len() == 5 && parts()[4][0] == 'b');
    assert(parts()[5].len() == 3 && parts()[5][0] == 'r');
    assert(parts()[6].len() == 5 && parts()[6][0] == 'g');
    assert(parts()[7].len() == 6 && parts()[7][0] == 'y');
    assert(parts()[8].len() == 4 && parts()[8][0] == 'b');
    assert(parts()[9].len() == 7 && parts()[9][0] == 'm' && parts()[9][6] == 'a');
    assert(parts()[10].len() == 4 && parts()[10][0] == 'c');
    assert(parts()[11].len() == 5 && parts()[11][0] == 'w');
    assert(parts()[12].len() == 11 && parts()[12][0] == 'b' && parts()[12][6] == 'B');
    assert(parts()[13].len() == 9 && parts()[13][0] == 'b' && parts()[13][6] == 'R');
    assert(parts()[14].len() == 11 && parts()[14][0] == 'b' && parts()[14][6] == 'G');
    assert(parts()[15].len() == 12 && parts()[15][0] == 'b' && parts()[15][6] == 'Y');
    assert(parts()[16].len() == 10 && parts()[16][0] == 'b' && parts()[16][6] == 'B');
    assert(parts()[17].len() == 13 && parts()[17][0] == 'b' && parts()[17][6] == 'M');
    assert(parts()[18].len() == 10 && parts()[18][0] == 'b' && parts()[18][6] == 'C');
    assert(parts()[19].len() == 11 && parts()[19][0] == 'b' && parts()[19][6] == 'W');
}

/// Every theme colours the same parts, each once.
pub proof fn lemma_themes_name_each_part_once()
    ensures
        parts_of(dark_theme()) == parts(),
        parts_of(light_theme()) == parts(),
        parts_of(dracula_theme()) == parts(),
{
    assert(parts_of(dark_theme()) =~= parts());
    assert(parts_of(light_theme()) =~= parts());
    assert(parts_of(dracula_theme()) =~= parts());
}

fn colour(part: &str, value: &str) -> (r: (String, String))
    ensures
        r.0@ == part@,
        r.1@ == value@,
{
    (String::from_str(part), String::from_str(value))
}

/// The colours of the dark theme.
pub open spec fn dark_theme() -> Seq<(Seq<char>, Seq<char>)> {
    seq![
        ("background"@, "#1e1e1e"@),
        ("foreground"@, "#d4d4d4"@),
        ("cursor"@, "#d4d4d4"@),
        ("selection"@, "#264f78"@),
        ("black"@, "#1e1e1e"@),
        ("red"@, "#f44747"@),
        ("green"@, "#608b4e"@),
        ("yellow"@, "#dcdcaa"@),
        ("blue"@, "#569cd6"@),
        ("magenta"@, "#c586c0"@),
        ("cyan"@, "#4ec9b0"@),
        ("white"@, "#d4d4d4"@),
        ("brightBlack"@, "#808080"@),
        ("brightRed"@, "#f44747"@),
        ("brightGreen"@, "#b5cea8"@),
        ("brightYellow"@, "#dcdcaa"@),
        ("brightBlue"@, "#9cdcfe"@),
        ("brightMagenta"@, "#c586c0"@),
        ("brightCyan"@, "#4ec9b0"@),
        ("brightWhite"@, "#ffffff"@),
    ]
}

/// The dark theme.
pub fn get_dark_theme() -> (theme: Theme)
    ensures
        colours(theme@) == dark_theme(),
{
    let mut theme: Theme = Vec::new();
    theme.push(colour("background", "#1e1e1e"));
    theme.push(colour("foreground", "#d4d4d4"));
    theme.push(colour("cursor", "#d4d4d4"));
    theme.push(colour("selection", "#264f78"));
    theme.push(colour("black", "#1e1e1e"));
    theme.push(colour("red", "#f44747"));
    theme.push(colour("green", "#608b4e"));
    theme.push(colour("yellow", "#dcdcaa"));
    theme.push(colour("blue", "#569cd6"));
    theme.push(colour("magenta", "#c586c0"));
    theme.push(colour("cyan", "#4ec9b0"));
    theme.push(colour("white", "#d4d4d4"));
    theme.push(colour("brightBlack", "#808080"));
    theme.push(colour("brightRed", "#f44747"));
    theme.push(colour("brightGreen", "#b5cea8"));
    theme.push(colour("brightYellow", "#dcdcaa"));
    theme.push(colour("brightBlue", "#9cdcfe"));
    theme.push(colour("brightMagenta", "#c586c0"));
    theme.push(colour("brightCyan", "#4ec9b0"));
    theme.push(colour("brightWhite", "#ffffff"));
    proof {
        assert(colours(theme@) =~= dark_theme());
    }
    theme
}

/// The colours of the light theme.
pub open spec fn light_theme() -> Seq<(Seq<char>, Seq<char>)> {
    seq![
        ("background"@, "#ffffff"@),
        ("foreground"@, "#323232"@),
        ("cursor"@, "#323232"@),
        ("selection"@, "#add6ff"@),
        ("black"@, "#000000"@),
        ("red"@, "#cd3131"@),
        ("green"@, "#00bc00"@),
        ("yellow"@, "#949800"@),
        ("blue"@, "#0451a5"@),
        ("magenta"@, "#bc05bc"@),
        ("cyan"@, "#0598bc"@),
        ("white"@, "#555555"@),
        ("brightBlack"@, "#666666"@),
        ("brightRed"@, "#cd3131"@),
        ("brightGreen"@, "#14ce14"@),
        ("brightYellow"@, "#b5ba00"@),
        ("brightBlue"@, "#0451a5"@),
        ("brightMagenta"@, "#bc05bc"@),
        ("brightCyan"@, "#0598bc"@),
        ("brightWhite"@, "#a5a5a5"@),
    ]
}

/// The light theme.
pub fn get_light_theme() -> (theme: Theme)
    ensures
        colours(theme@) == light_theme(),
{
    let mut theme: Theme = Vec::new();
    theme.push(colour("background", "#ffffff"));
    theme.push(colour("foreground", "#323232"));
    theme.push(colour("cursor", "#323232"));
    theme.push(colour("selection", "#add6ff"));
    theme.push(colour("black", "#000000"));
    theme.push(colour("red", "#cd3131"));
    theme.push(colour("green", "#00bc00"));
    theme.push(colour("yellow", "#949800"));
    theme.push(colour("blue", "#0451a5"));
    theme.push(colour("magenta", "#bc05bc"));
    theme.push(colour("cyan", "#0598bc"));
    theme.push(colour("white", "#555555"));
    theme.push(colour("brightBlack", "#666666"));
    theme.push(colour("brightRed", "#cd3131"));
    theme.push(colour("brightGreen", "#14ce14"));
    theme.push(colour("brightYellow", "#b5ba00"));
    theme.push(colour("brightBlue", "#0451a5"));
    theme.push(colour("brightMagenta", "#bc05bc"));
    theme.push(colour("brightCyan", "#0598bc"));
    theme.push(colour("brightWhite", "#a5a5a5"));
    proof {
        assert(colours(theme@) =~= light_theme());
    }
    theme
}

/// The colours of the Dracula theme.
pub open spec fn dracula_theme() -> Seq<(Seq<char>, Seq<char>)> {
    seq![
        ("background"@, "#282a36"@),
        ("foreground"@, "#f8f8f2"@),
        ("cursor"@, "#f8f8f2"@),
        ("selection"@, "#44475a"@),
        ("black"@, "#21222c"@),
        ("red"@, "#ff5555"@),
        ("green"@, "#50fa7b"@),
        ("yellow"@, "#f1fa8c"@),
        ("blue"@, "#bd93f9"@),
        ("magenta"@, "#ff79c6"@),
        ("cyan"@, "#8be9fd"@),
        ("white"@, "#f8f8f2"@),
        ("brightBlack"@, "#6272a4"@),
        ("brightRed"@, "#ff6e6e"@),
        ("brightGreen"@, "#69ff94"@),
        ("brightYellow"@, "#ffffa5"@),
        ("brightBlue"@, "#d6acff"@),
        ("brightMagenta"@, "#ff92df"@),
        ("brightCyan"@, "#a4ffff"@),
        ("brightWhite"@, "#ffffff"@),
    ]
}

/// The Dracula theme.
pub fn get_dracula_theme() -> (theme: Theme)
    ensures
        colours(theme@) == dracula_theme(),
{
    let mut theme: Theme = Vec::new();
    theme.push(colour("background", "#282a36"));
    theme.push(colour("foreground", "#f8f8f2"));
    theme.push(colour("cursor", "#f8f8f2"));
    theme.push(colour("selection", "#44475a"));
    theme.push(colour("black", "#21222c"));
    theme.push(colour("red", "#ff5555"));
    theme.push(colour("green", "#50fa7b"));
    theme.push(colour("yellow", "#f1fa8c"));
    theme.push(colour("blue", "#bd93f9"));
    theme.push(colour("magenta", "#ff79c6"));
    theme.push(colour("cyan", "#8be9fd"));
    theme.push(colour("white", "#f8f8f2"));
    theme.push(colour("brightBlack", "#6272a4"));
    theme.push(colour("brightRed", "#ff6e6e"));
    theme.push(colour("brightGreen", "#69ff94"));
    theme.push(colour("brightYellow", "#ffffa5"));
    theme.push(colour("brightBlue", "#d6acff"));
    theme.push(colour("brightMagenta", "#ff92df"));
    theme.push(colour("brightCyan", "#a4ffff"));
    theme.push(colour("brightWhite", "#ffffff"));
    proof {
        assert(colours(theme@) =~= dracula_theme());
    }
    theme
}

/// The colour that the theme gives a part, if it names the part.
pub fn get_colour<'a>(theme: &'a Theme, part: &str) -> (r: Option<&'a String>)
    ensures
        match r {
            Some(value) => colour_of(colours(theme@), part@) == Some(value@),
            None => colour_of(colours(theme@), part@) is None,
        },
{
    let mut i: usize = 0;
    proof {
        assert(colours(theme@).skip(0) =~= colours(theme@));
    }
    while i < theme.len()
        invariant
            i <= theme@.len(),
            colour_of(colours(theme@).skip(i as int), part@) == colour_of(colours(theme@), part@),
        decreases theme.len() - i,
    {
        proof {
            let rest = colours(theme@).skip(i as int);
            assert(rest[0] == colours(theme@)[i as int]);
            assert(rest.drop_first() =~= colours(theme@).skip(i + 1));
        }
        if same_text(theme[i].0.as_str(), part) {
            return Some(&theme[i].1);
        }
        i = i + 1;
    }
    None
}

} // verus!
