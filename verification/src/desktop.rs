//! How the wallpaper is handed to a Linux desktop: which desktop shell is
//! running, which file it is shown, and the command that tells it.

use crate::text::{char_at, char_count};
use vstd::prelude::*;
use vstd::string::*;

verus! {

/// `word` stands in `text` at the place `at`.
pub open spec fn occurs_at(text: Seq<char>, word: Seq<char>, at: int) -> bool {
    0 <= at && at + word.len() <= text.len() && text.subrange(at, at + word.len()) == word
}

/// `word` stands somewhere in `text`.
pub open spec fn holds_word(text: Seq<char>, word: Seq<char>) -> bool {
    exists|at: int| occurs_at(text, word, at)
}

/// The desktop shells that the agent can talk to.
#[derive(Clone, Copy, Debug, PartialEq, Eq, Structural)]
pub enum Desktop {
    /// KDE Plasma, told by a script over D-Bus.
    Plasma,
    /// Anything else is told as GNOME is, through its settings.
    Gnome,
}

/// Which file Plasma is shown, and what is done to the files first. Plasma
/// takes no notice of a file whose name it already shows, so the image
/// alternates between two names.
#[derive(Clone, Copy, Debug, PartialEq, Eq, Structural)]
pub enum Shuffle {
    /// The second file exists: remove it and show the first.
    RemoveSecond,
    /// The second file does not exist: rename the first to it and show it.
    RenameToSecond,
}

/// The desktop that a session name stands for.
pub open spec fn desktop_spec(session: Option<Seq<char>>) -> Desktop {
    match session {
        Some(name) => if holds_word(name, "plasma"@) {
            Desktop::Plasma
        } else {
            Desktop::Gnome
        },
        None => Desktop::Gnome,
    }
}

/// The script that makes every Plasma desktop show the image at `url`.
pub open spec fn plasma_script_of(url: Seq<char>) -> Seq<char> {
    "\n                desktops().forEach((d) => {\n                  d.wallpaperPlugin = \"org.kde.image\";\n                  d.currentConfigGroup = [\"Wallpaper\", \"org.kde.image\", \"General\"];\n                  d.writeConfig(\"Image\", \""@
        + url
        + "\");\n                  d.reloadConfig();\n                });\n              "@
}

/// Tells whether `word` stands somewhere in `text`.
pub fn contains_word(text: &str, word: &str) -> (r: bool)
    ensures
        r == holds_word(text@, word@),
{
    let plain_text: bool = text.is_ascii();
    let plain_word: bool = word.is_ascii();
    let n: usize = char_count(text, plain_text);
    let m: usize = char_count(word, plain_word);
    if m > n {
        return false;
    }
    if m == 0 {
        assert(text@.subrange(0, 0) =~= word@);
        assert(occurs_at(text@, word@, 0));
        return true;
    }
    let mut at: usize = 0;
    while at <= n - m
        invariant
            plain_text ==> is_ascii(text),
            plain_word ==> is_ascii(word),
            n == text@.len(),
            m == word@.len(),
            0 < m <= n,
            at <= n - m + 1,
            forall|a: int| 0 <= a < at ==> !occurs_at(text@, word@, a),
        decreases n - m + 1 - at,
    {
        let mut j: usize = 0;
        let mut same: bool = true;
        while same && j < m
            invariant
                plain_text ==> is_ascii(text),
                plain_word ==> is_ascii(word),
                n == text@.len(),
                m == word@.len(),
                at + m <= n,
                j <= m,
                same ==> forall|k: int| 0 <= k < j ==> text@[at + k] == word@[k],
                !same ==> !occurs_at(text@, word@, at as int),
            decreases m - j + if same { 1int } else { 0int },
        {
            if char_at(text, at + j, plain_text) != char_at(word, j, plain_word) {
                same = false;
                assert(text@.subrange(at as int, at + m)[j as int] != word@[j as int]);
            } else {
                j += 1;
            }
        }
        if same {
            assert(text@.subrange(at as int, at + m) =~= word@);
            assert(occurs_at(text@, word@, at as int));
            return true;
        }
        at += 1;
    }
    false
}

/// Tells the desktop from the name of the session, if there is one.
pub fn desktop_of(session: Option<&str>) -> (desktop: Desktop)
    ensures
        desktop == desktop_spec(
            match session {
                Some(name) => Some(name@),
                None => None,
            },
        ),
{
    match session {
        Some(name) => if contains_word(name, "plasma") {
            Desktop::Plasma
        } else {
            Desktop::Gnome
        },
        None => Desktop::Gnome,
    }
}

/// The name of the second file beside the wallpaper file.
pub fn second_file_name(stem: &str, extension: &str) -> (name: String)
    ensures
        name@ == stem@ + "2."@ + extension@,
{
    let mut name = String::from_str(stem);
    name.append("2.");
    name.append(extension);
    name
}

/// Decides what to do with the two files before Plasma is told.
pub fn shuffle_for(second_exists: bool) -> (shuffle: Shuffle)
    ensures
        second_exists ==> shuffle == Shuffle::RemoveSecond,
        !second_exists ==> shuffle == Shuffle::RenameToSecond,
{
    if second_exists {
        Shuffle::RemoveSecond
    } else {
        Shuffle::RenameToSecond
    }
}

/// The address of a local file.
pub fn file_url(path: &str) -> (url: String)
    ensures
        url@ == "file://"@ + path@,
{
    let mut url = String::from_str("file://");
    url.append(path);
    url
}

/// Builds the script that makes every Plasma desktop show the image.
pub fn plasma_script(url: &str) -> (script: String)
    ensures
        script@ == plasma_script_of(url@),
{
    let mut script = String::from_str(
        "\n                desktops().forEach((d) => {\n                  d.wallpaperPlugin = \"org.kde.image\";\n                  d.currentConfigGroup = [\"Wallpaper\", \"org.kde.image\", \"General\"];\n                  d.writeConfig(\"Image\", \"",
    );
    script.append(url);
    script.append("\");\n                  d.reloadConfig();\n                });\n              ");
    script
}

/// The program to run for a desktop.
pub fn program_for(desktop: Desktop) -> (program: &'static str)
    ensures
        desktop == Desktop::Plasma ==> program@ == "qdbus"@,
        desktop == Desktop::Gnome ==> program@ == "gsettings"@,
{
    match desktop {
        Desktop::Plasma => "qdbus",
        Desktop::Gnome => "gsettings",
    }
}

/// The arguments that make the program show the image at `url`.
pub fn arguments_for(desktop: Desktop, url: &str) -> (arguments: Vec<String>)
    ensures
        arguments@.len() == 4,
        desktop == Desktop::Plasma ==> {
            &&& arguments@[0]@ == "org.kde.plasmashell"@
            &&& arguments@[1]@ == "/PlasmaShell"@
            &&& arguments@[2]@ == "org.kde.PlasmaShell.evaluateScript"@
            &&& arguments@[3]@ == plasma_script_of(url@)
        },
        desktop == Desktop::Gnome ==> {
            &&& arguments@[0]@ == "set"@
            &&& arguments@[1]@ == "org.gnome.desktop.background"@
            &&& arguments@[2]@ == "picture-uri"@
            &&& arguments@[3]@ == url@
        },
{
    let mut arguments: Vec<String> = Vec::new();
    match desktop {
        Desktop::Plasma => {
            arguments.push(String::from_str("org.kde.plasmashell"));
            arguments.push(String::from_str("/PlasmaShell"));
            arguments.push(String::from_str("org.kde.PlasmaShell.evaluateScript"));
            arguments.push(plasma_script(url));
        },
        Desktop::Gnome => {
            arguments.push(String::from_str("set"));
            arguments.push(String::from_str("org.gnome.desktop.background"));
            arguments.push(String::from_str("picture-uri"));
            arguments.push(String::from_str(url));
        },
    }
    arguments
}

} // verus!
