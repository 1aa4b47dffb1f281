//! The session's switches and their rendering.

use vstd::prelude::*;

verus! {

/// The switches of one shell session, the directory it was started in and the
/// address of the remote node it talks to.
#[derive(Debug)]
pub struct GlobalConfig {
    blake2b: bool,
    color: bool,
    debug: bool,
    json_format: bool,
    path: String,
    url: String,
}

/// What a `GlobalConfig` holds, as plain values.
pub struct ConfigView {
    pub blake2b: bool,
    pub color: bool,
    pub debug: bool,
    pub json_format: bool,
    pub path: Seq<char>,
    pub url: Seq<char>,
}

impl View for GlobalConfig {
    type V = ConfigView;

    closed spec fn view(&self) -> ConfigView {
        ConfigView {
            blake2b: self.blake2b,
            color: self.color,
            debug: self.debug,
            json_format: self.json_format,
            path: self.path@,
            url: self.url@,
        }
    }
}

impl ConfigView {
    /// The state a session starts in.
    pub open spec fn initial(url: Seq<char>, path: Seq<char>) -> ConfigView {
        ConfigView { blake2b: false, color: true, debug: false, json_format: true, path, url }
    }

    pub open spec fn switch_encryption(self) -> ConfigView {
        ConfigView { blake2b: !self.blake2b, ..self }
    }

    pub open spec fn switch_color(self) -> ConfigView {
        ConfigView { color: !self.color, ..self }
    }

    pub open spec fn switch_debug(self) -> ConfigView {
        ConfigView { debug: !self.debug, ..self }
    }

    pub open spec fn switch_format(self) -> ConfigView {
        ConfigView { json_format: !self.json_format, ..self }
    }

    pub open spec fn set_url(self, url: Seq<char>) -> ConfigView {
        ConfigView { url, ..self }
    }
}

/// Flipping a switch twice leaves the session as it was, and flipping one
/// switch leaves the others alone.
pub proof fn lemma_switch_twice_restores(config: ConfigView)
    ensures
        config.switch_color().switch_color() == config,
        config.switch_debug().switch_debug() == config,
        config.switch_format().switch_format() == config,
        config.switch_encryption().switch_encryption() == config,
        config.switch_color().color != config.color,
        config.switch_color() == (ConfigView { color: config.switch_color().color, ..config }),
        config.switch_debug() == (ConfigView { debug: config.switch_debug().debug, ..config }),
        config.switch_format() == (ConfigView {
            json_format: config.switch_format().json_format,
            ..config
        }),
        config.switch_encryption() == (ConfigView {
            blake2b: config.switch_encryption().blake2b,
            ..config
        }),
{
}

/// A text in yellow, as a terminal takes it: the escape sequence that sets
/// the colour, the text, and the sequence that resets it.
pub open spec fn yellow(text: Seq<char>) -> Seq<char> {
    "\x1b[33m"@ + text + "\x1b[0m"@
}

/// Calls `Colour::Yellow.paint` of ansi_term and writes the painted string
/// out, which gives the code for a yellow foreground, the text as it is, and
/// the reset code.
#[verifier::external_body]
fn paint_yellow(text: &str) -> (painted: String)
    ensures
        painted@ == yellow(text@),
{
    ansi_term::Colour::Yellow.paint(text).to_string()
}

/// A switch's value as it is shown.
pub open spec fn switch_text(on: bool) -> Seq<char> {
    if on {
        "true"@
    } else {
        "false"@
    }
}

/// A run of `count` blanks.
pub open spec fn blanks(count: nat) -> Seq<char> {
    Seq::new(count, |i: int| ' ')
}

/// `label` in the middle of a field of `width` characters; of an odd number
/// of blanks the greater half stands behind it. A label longer than the
/// field is left as it is.
pub open spec fn centered(label: Seq<char>, width: nat) -> Seq<char> {
    let padding = if width > label.len() {
        (width - label.len()) as nat
    } else {
        0
    };
    blanks(padding / 2) + label + blanks((padding - padding / 2) as nat)
}

/// The length of the longest label of `rows`.
pub open spec fn longest_label(rows: Seq<(Seq<char>, Seq<char>)>) -> nat
    decreases rows.len(),
{
    if rows.len() == 0 {
        0
    } else {
        let rest = longest_label(rows.drop_last());
        if rows.last().0.len() > rest {
            rows.last().0.len()
        } else {
            rest
        }
    }
}

/// No label is longer than the longest.
proof fn lemma_longest_label_bounds(rows: Seq<(Seq<char>, Seq<char>)>, at: int)
    requires
        0 <= at < rows.len(),
    ensures
        rows[at].0.len() <= longest_label(rows),
    decreases rows.len(),
{
    if at < rows.len() - 1 {
        lemma_longest_label_bounds(rows.drop_last(), at);
    }
}

/// One line of the listing: the label centred between brackets, a colon,
/// and the value in yellow.
pub open spec fn row_text(row: (Seq<char>, Seq<char>), width: nat) -> Seq<char> {
    "["@ + centered(row.0, width) + "]: "@ + yellow(row.1)
}

/// The first `count` lines of a listing, with a line break between them.
pub open spec fn rows_text(rows: Seq<(Seq<char>, Seq<char>)>, width: nat, count: nat) -> Seq<char>
    decreases count,
{
    if count == 0 || count > rows.len() {
        Seq::empty()
    } else if count == 1 {
        row_text(rows[0], width)
    } else {
        rows_text(rows, width, (count - 1) as nat) + "\n"@ + row_text(rows[count - 1], width)
    }
}

/// The listing as it is printed: a label field two wider than the longest
/// label, one line for each row.
pub open spec fn listing_text(rows: Seq<(Seq<char>, Seq<char>)>) -> Seq<char> {
    rows_text(rows, longest_label(rows) + 2, rows.len())
}

/// The rows of two texts, as plain values.
pub open spec fn row_views(rows: Seq<(String, String)>) -> Seq<(Seq<char>, Seq<char>)> {
    Seq::new(rows.len(), |i: int| (rows[i].0@, rows[i].1@))
}

impl ConfigView {
    /// What the listing shows, in its order: the remote address, the
    /// directory, the three switches and the hash in use.
    pub open spec fn rows(self) -> Seq<(Seq<char>, Seq<char>)> {
        seq![
            ("url"@, self.url),
            ("pwd"@, self.path),
            ("color"@, switch_text(self.color)),
            ("debug"@, switch_text(self.debug)),
            ("json"@, switch_text(self.json_format)),
            (
                "encryption"@,
                if self.blake2b {
                    "blake2b_hash"@
                } else {
                    "sha3_hash"@
                },
            ),
        ]
    }
}

/// A run of blanks.
fn spaces(count: usize) -> (run: String)
    ensures
        run@ == blanks(count as nat),
{
    let mut run = String::new();
    let mut i: usize = 0;
    proof {
        reveal_strlit(" ");
    }
    while i < count
        invariant
            i <= count,
            run@ == blanks(i as nat),
            " "@ == seq![' '],
        decreases count - i,
    {
        run.append(" ");
        i = i + 1;
        assert(run@ == blanks(i as nat));
    }
    run
}

/// A switch's value as it is shown.
fn switch_word(on: bool) -> (word: String)
    ensures
        word@ == switch_text(on),
{
    if on {
        String::from_str("true")
    } else {
        String::from_str("false")
    }
}

/// The listing of `rows` as it is printed.
pub fn render_rows(rows: &Vec<(String, String)>) -> (text: String)
    ensures
        text@ == listing_text(row_views(rows@)),
{
    let ghost all = row_views(rows@);
    let mut longest: usize = 0;
    let mut i: usize = 0;
    assert(all.take(0) == Seq::<(Seq<char>, Seq<char>)>::empty());
    while i < rows.len()
        invariant
            i <= rows.len(),
            all == row_views(rows@),
            longest == longest_label(all.take(i as int)),
        decreases rows.len() - i,
    {
        assert(all.take(i + 1).drop_last() == all.take(i as int));
        let length = rows[i].0.as_str().unicode_len();
        if length > longest {
            longest = length;
        }
        i = i + 1;
    }
    assert(all.take(rows.len() as int) == all);
    let ghost width = (longest + 2) as nat;
    let mut text = String::new();
    let mut i: usize = 0;
    while i < rows.len()
        invariant
            i <= rows.len(),
            all == row_views(rows@),
            longest == longest_label(all),
            width == longest + 2,
            text@ == rows_text(all, width, i as nat),
        decreases rows.len() - i,
    {
        let label = rows[i].0.as_str();
        let length = label.unicode_len();
        proof {
            lemma_longest_label_bounds(all, i as int);
        }
        let spare: usize = longest - length;
        let ghost before = text@;
        if i > 0 {
            text.append("\n");
        }
        text.append("[");
        text.append(spaces(spare / 2 + 1).as_str());
        text.append(label);
        text.append(spaces(spare - spare / 2 + 1).as_str());
        text.append("]: ");
        text.append(paint_yellow(rows[i].1.as_str()).as_str());
        assert(text@ == if i > 0 {
            before + "\n"@ + row_text(all[i as int], width)
        } else {
            row_text(all[i as int], width)
        });
        i = i + 1;
    }
    text
}

impl GlobalConfig {
    /// A fresh session: colour and JSON output on, debugging and the
    /// alternate hash off.
    pub fn new(url: String, path: String) -> (config: GlobalConfig)
        ensures
            config@ == ConfigView::initial(url@, path@),
    {
        GlobalConfig { blake2b: false, color: true, debug: false, json_format: true, path, url }
    }

    pub fn switch_encryption(&mut self)
        ensures
            final(self)@ == old(self)@.switch_encryption(),
    {
        self.blake2b = !self.blake2b;
    }

    pub fn switch_color(&mut self)
        ensures
            final(self)@ == old(self)@.switch_color(),
    {
        self.color = !self.color;
    }

    pub fn switch_debug(&mut self)
        ensures
            final(self)@ == old(self)@.switch_debug(),
    {
        self.debug = !self.debug;
    }

    pub fn switch_format(&mut self)
        ensures
            final(self)@ == old(self)@.switch_format(),
    {
        self.json_format = !self.json_format;
    }

    pub fn set_url(&mut self, url: String)
        ensures
            final(self)@ == old(self)@.set_url(url@),
    {
        self.url = url;
    }

    pub fn blake2b(&self) -> (on: bool)
        ensures
            on == self@.blake2b,
    {
        self.blake2b
    }

    pub fn color(&self) -> (on: bool)
        ensures
            on == self@.color,
    {
        self.color
    }

    pub fn debug(&self) -> (on: bool)
        ensures
            on == self@.debug,
    {
        self.debug
    }

    pub fn json_format(&self) -> (on: bool)
        ensures
            on == self@.json_format,
    {
        self.json_format
    }

    pub fn url(&self) -> (url: &String)
        ensures
            url@ == self@.url,
    {
        &self.url
    }

    pub fn path(&self) -> (path: &String)
        ensures
            path@ == self@.path,
    {
        &self.path
    }

    /// What the listing shows, label and value, in its order.
    pub fn rows(&self) -> (rows: Vec<(String, String)>)
        ensures
            row_views(rows@) == self@.rows(),
    {
        let encryption = if self.blake2b {
            String::from_str("blake2b_hash")
        } else {
            String::from_str("sha3_hash")
        };
        let mut rows: Vec<(String, String)> = Vec::new();
        rows.push((String::from_str("url"), self.url.clone()));
        rows.push((String::from_str("pwd"), self.path.clone()));
        rows.push((String::from_str("color"), switch_word(self.color)));
        rows.push((String::from_str("debug"), switch_word(self.debug)));
        rows.push((String::from_str("json"), switch_word(self.json_format)));
        rows.push((String::from_str("encryption"), encryption));
        assert(row_views(rows@) == self@.rows());
        rows
    }

    /// The session as it is shown: one line for each row, the labels centred
    /// in a field of one width, the values in yellow. The session itself is
    /// left as it is.
    pub fn render(&self) -> (text: String)
        ensures
            text@ == listing_text(self@.rows()),
    {
        let rows = self.rows();
        render_rows(&rows)
    }
}

} // verus!
