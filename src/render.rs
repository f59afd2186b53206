use vstd::prelude::*;
use colored::Colorize;
use crate::icons::{
    IconRegistry, bracket, bracketed, brace_free, has_placeholder, lemma_key_token_becomes_glyph,
    lemma_listed_key_looks_up, lemma_no_placeholder_unchanged, lemma_unknown_token_unchanged,
    lookup_in, pairs_view, standard_table, substituted_by, table_ok,
};
use crate::text::{decimal, decimal_of, occurs};

verus! {

#[verifier::external_type_specification]
pub struct ExColor(colored::Color);

#[verifier::external_type_specification]
#[verifier::external_body]
pub struct ExIoError(std::io::Error);

/// What can go wrong when writing to the terminal.
#[derive(Debug)]
pub enum PrintkError {
    /// A row index below zero.
    InvalidCursor(i16),
    /// The terminal stream failed.
    IoError(std::io::Error),
}

/// The escape sequence that ends a colored span: `ESC [ 0 m`.
pub open spec fn reset_seq() -> Seq<char> {
    seq!['\x1B', '[', '0', 'm']
}

/// The foreground code that colored writes for each of the sixteen standard colors.
pub open spec fn fg_code(c: colored::Color) -> Seq<char> {
    match c {
        colored::Color::Black => seq!['3', '0'],
        colored::Color::Red => seq!['3', '1'],
        colored::Color::Green => seq!['3', '2'],
        colored::Color::Yellow => seq!['3', '3'],
        colored::Color::Blue => seq!['3', '4'],
        colored::Color::Magenta => seq!['3', '5'],
        colored::Color::Cyan => seq!['3', '6'],
        colored::Color::White => seq!['3', '7'],
        colored::Color::BrightBlack => seq!['9', '0'],
        colored::Color::BrightRed => seq!['9', '1'],
        colored::Color::BrightGreen => seq!['9', '2'],
        colored::Color::BrightYellow => seq!['9', '3'],
        colored::Color::BrightBlue => seq!['9', '4'],
        colored::Color::BrightMagenta => seq!['9', '5'],
        colored::Color::BrightCyan => seq!['9', '6'],
        colored::Color::BrightWhite => seq!['9', '7'],
        colored::Color::TrueColor { .. } => seq![],
    }
}

/// A sequence that may open a span of color `c`: `ESC [ code m`, with the
/// standard code of `c` where `c` is one of the sixteen standard colors.
pub open spec fn color_prefix_ok(c: colored::Color, p: Seq<char>) -> bool {
    if c is TrueColor {
        p.len() >= 3 && p[0] == '\x1B' && p[1] == '[' && p.last() == 'm'
    } else {
        p == seq!['\x1B', '['] + fg_code(c) + seq!['m']
    }
}

/// `r` is `t` tinted with `c`: either `t` as it is (coloring switched off),
/// or `t` between an opening sequence for `c` and the reset sequence (where
/// `t` itself holds a reset sequence, colored reopens the color after it).
pub open spec fn tinted(t: Seq<char>, c: colored::Color, r: Seq<char>) -> bool {
    r == t || exists|p: Seq<char>, mid: Seq<char>|
        #![trigger p + mid + reset_seq()]
        color_prefix_ok(c, p) && r == p + mid + reset_seq() && (!occurs(t, reset_seq()) ==> mid
            == t)
}

/// Relies on colored's `Colorize::color` and the `Display` of `ColoredString`:
/// the text unchanged where coloring is switched off (by the environment or
/// because the output is no terminal), else the foreground code of the color,
/// the text, and the reset sequence.
#[verifier::external_body]
fn paint(text: &str, color: colored::Color) -> (r: String)
    ensures
        tinted(text@, color, r@),
{
    text.color(color).to_string()
}

/// `ESC [ <row + 1> ; 1 H`: the cursor to row `row` (counted from zero), column one.
pub open spec fn cursor_to(row: nat) -> Seq<char> {
    seq!['\x1B', '['] + decimal_of(row + 1) + seq![';', '1', 'H']
}

/// `ESC [ 0 K`: erase from the cursor to the end of the line.
pub open spec fn erase_line() -> Seq<char> {
    seq!['\x1B', '[', '0', 'K']
}

/// `ESC [ s`: save the cursor position.
pub open spec fn save_cursor() -> Seq<char> {
    seq!['\x1B', '[', 's']
}

/// `ESC [ u`: restore the saved cursor position.
pub open spec fn restore_cursor() -> Seq<char> {
    seq!['\x1B', '[', 'u']
}

/// Rows `start` to `start + count - 1`, each addressed and erased in turn.
pub open spec fn clear_rows_seq(start: nat, count: nat) -> Seq<char>
    decreases count,
{
    if count == 0 {
        seq![]
    } else {
        clear_rows_seq(start, (count - 1) as nat) + cursor_to((start + count - 1) as nat)
            + erase_line()
    }
}

fn cursor_seq(row: u32) -> (r: String)
    requires
        row < u32::MAX,
    ensures
        r@ == cursor_to(row as nat),
{
    proof {
        reveal_strlit("\x1B[");
        reveal_strlit(";1H");
    }
    let mut r = String::from_str("\x1B[");
    r.append(decimal(row + 1).as_str());
    r.append(";1H");
    assert(r@ =~= cursor_to(row as nat));
    r
}

fn append_erase(s: &mut String)
    ensures
        final(s)@ == old(s)@ + erase_line(),
{
    proof {
        reveal_strlit("\x1B[0K");
    }
    s.append("\x1B[0K");
    assert(s@ =~= old(s)@ + erase_line());
}

/// Clearing zero rows sends nothing.
pub proof fn lemma_clear_no_rows(start: nat)
    ensures
        clear_rows_seq(start, 0) == Seq::<char>::empty(),
{
}

/// A renderer: substitutes icon placeholders and tints with one color.
pub struct Printk {
    default_color: Option<colored::Color>,
    show_icons: bool,
    registry: IconRegistry,
}

impl Printk {
    /// The color every message is tinted with, if any.
    pub closed spec fn color(&self) -> Option<colored::Color> {
        self.default_color
    }

    /// Whether placeholders are substituted.
    pub closed spec fn icons_on(&self) -> bool {
        self.show_icons
    }

    /// The icon table in use.
    pub closed spec fn table(&self) -> Seq<(Seq<char>, Seq<char>)> {
        self.registry@
    }

    /// The renderer's table is valid; every renderer the API builds is.
    pub open spec fn wf(&self) -> bool {
        table_ok(self.table())
    }

    /// `s` with placeholders substituted, or `s` itself where icons are off.
    pub open spec fn substituted(&self, s: Seq<char>) -> Seq<char> {
        if self.icons_on() {
            substituted_by(s, self.table())
        } else {
            s
        }
    }

    /// `r` is `s` substituted and then tinted with the renderer's color, if any.
    pub open spec fn rendered(&self, s: Seq<char>, r: Seq<char>) -> bool {
        match self.color() {
            None => r == self.substituted(s),
            Some(c) => tinted(self.substituted(s), c, r),
        }
    }

    /// Where icons are off, substitution leaves every text as it is,
    /// placeholders included.
    pub proof fn lemma_icons_off_unchanged(p: Printk, s: Seq<char>)
        requires
            !p.icons_on(),
        ensures
            p.substituted(s) == s,
    {
    }

    /// Text without any placeholder token comes out of substitution unchanged.
    pub proof fn lemma_no_placeholder_kept(p: Printk, s: Seq<char>)
        requires
            p.wf(),
            !has_placeholder(s),
        ensures
            p.substituted(s) == s,
    {
        if p.icons_on() {
            lemma_no_placeholder_unchanged(s, p.table());
        }
    }

    /// With icons on, the token `{k}` of each key `k` of the table becomes
    /// its glyph.
    pub proof fn lemma_key_token_glyph(p: Printk, i: int)
        requires
            p.wf(),
            p.icons_on(),
            0 <= i < p.table().len(),
        ensures
            p.substituted(bracketed(p.table()[i].0)) == p.table()[i].1,
    {
        lemma_key_token_becomes_glyph(p.table(), i);
    }

    /// The token `{u}` of a key that the table lacks is left verbatim.
    pub proof fn lemma_unknown_token_kept(p: Printk, u: Seq<char>)
        requires
            p.wf(),
            brace_free(u),
            forall|i: int| 0 <= i < p.table().len() ==> #[trigger] p.table()[i].0 != u,
        ensures
            p.substituted(bracketed(u)) == bracketed(u),
    {
        if p.icons_on() {
            lemma_unknown_token_unchanged(u, p.table());
        }
    }

    /// Each listed key looks up to the glyph listed with it.
    pub proof fn lemma_listed_icon_looks_up(p: Printk, i: int)
        requires
            p.wf(),
            0 <= i < p.table().len(),
        ensures
            lookup_in(p.table(), p.table()[i].0) == Some(p.table()[i].1),
    {
        lemma_listed_key_looks_up(p.table(), i);
    }

    /// No color, icons on, the built-in table.
    pub fn new() -> (r: Printk)
        ensures
            r.color() is None,
            r.icons_on(),
            r.table() == standard_table(),
            r.wf(),
    {
        let registry = IconRegistry::standard();
        registry.valid_table();
        Printk { default_color: None, show_icons: true, registry }
    }

    /// The same renderer, tinting with `color`.
    pub fn with_color(self, color: colored::Color) -> (r: Printk)
        ensures
            r.color() == Some(color),
            r.icons_on() == self.icons_on(),
            r.table() == self.table(),
            r.wf(),
    {
        self.registry.valid_table();
        Printk { default_color: Some(color), ..self }
    }

    /// The same renderer, with placeholder substitution on or off.
    pub fn icons(self, show: bool) -> (r: Printk)
        ensures
            r.color() == self.color(),
            r.icons_on() == show,
            r.table() == self.table(),
            r.wf(),
    {
        self.registry.valid_table();
        Printk { show_icons: show, ..self }
    }

    /// The same renderer, with another icon table.
    pub fn with_registry(self, registry: IconRegistry) -> (r: Printk)
        ensures
            r.color() == self.color(),
            r.icons_on() == self.icons_on(),
            r.table() == registry@,
            r.wf(),
    {
        registry.valid_table();
        Printk { registry, ..self }
    }

    /// `message` with its placeholders substituted (nothing changes where
    /// icons are off); no color is applied.
    pub fn substitute(&self, message: &str) -> (r: String)
        ensures
            r@ == self.substituted(message@),
    {
        if !self.show_icons {
            return String::from_str(message);
        }
        self.registry.substitute(message)
    }

    /// `message` substituted and then tinted with the renderer's color, if any.
    pub fn process_message(&self, message: &str) -> (r: String)
        ensures
            self.rendered(message@, r@),
    {
        let s = self.substitute(message);
        match self.default_color {
            Some(c) => paint(s.as_str(), c),
            None => s,
        }
    }

    /// The glyph of `icon_name`; where icons are off, the name's own token
    /// `{icon_name}`.
    pub fn get_icon(&self, icon_name: &str) -> (r: Option<String>)
        ensures
            !self.icons_on() ==> (r matches Some(g) && g@ == bracketed(icon_name@)),
            self.icons_on() ==> match r {
                Some(g) => lookup_in(self.table(), icon_name@) == Some(g@),
                None => lookup_in(self.table(), icon_name@) is None,
            },
    {
        if !self.show_icons {
            return Some(bracket(&String::from_str(icon_name)));
        }
        self.registry.lookup(icon_name)
    }

    /// Every icon of the table, as key and glyph, in table order.
    pub fn list_icons(&self) -> (r: Vec<(String, String)>)
        ensures
            pairs_view(r@) == self.table(),
            table_ok(pairs_view(r@)),
    {
        self.registry.list()
    }

    /// What writing `message` at row `y` sends to the terminal: the cursor
    /// to row `y`, column one, then the rendered message. Fails for `y < 0`.
    pub fn print_at_y_text(&self, y: i16, message: &str) -> (r: Result<String, PrintkError>)
        ensures
            y < 0 <==> r is Err,
            r matches Err(e) ==> (e matches PrintkError::InvalidCursor(v) && v == y),
            r matches Ok(s) ==> {
                let head = cursor_to(y as nat);
                &&& s@.len() >= head.len()
                &&& s@.subrange(0, head.len() as int) == head
                &&& self.rendered(message@, s@.subrange(head.len() as int, s@.len() as int))
            },
    {
        if y < 0 {
            return Err(PrintkError::InvalidCursor(y));
        }
        let mut s = cursor_seq(y as u32);
        let ghost head = s@;
        let body = self.process_message(message);
        s.append(body.as_str());
        assert(s@.subrange(0, head.len() as int) =~= head);
        assert(s@.subrange(head.len() as int, s@.len() as int) =~= body@);
        Ok(s)
    }

    /// What writing `message` at row `y` and returning sends to the terminal:
    /// save the cursor, the text of [`Printk::print_at_y_text`], restore the
    /// cursor. Fails for `y < 0`.
    pub fn print_at_y_and_return_text(&self, y: i16, message: &str) -> (r: Result<
        String,
        PrintkError,
    >)
        ensures
            y < 0 <==> r is Err,
            r matches Err(e) ==> (e matches PrintkError::InvalidCursor(v) && v == y),
            r matches Ok(s) ==> {
                let head = save_cursor() + cursor_to(y as nat);
                let tail = restore_cursor();
                &&& s@.len() >= head.len() + tail.len()
                &&& s@.subrange(0, head.len() as int) == head
                &&& s@.subrange(s@.len() - tail.len(), s@.len() as int) == tail
                &&& self.rendered(
                    message@,
                    s@.subrange(head.len() as int, s@.len() - tail.len()),
                )
            },
    {
        proof {
            reveal_strlit("\x1B[s");
            reveal_strlit("\x1B[u");
        }
        match self.print_at_y_text(y, message) {
            Err(e) => Err(e),
            Ok(t) => {
                let mut s = String::from_str("\x1B[s");
                s.append(t.as_str());
                s.append("\x1B[u");
                let ghost head = save_cursor() + cursor_to(y as nat);
                let ghost hl = cursor_to(y as nat).len();
                assert(s@ =~= save_cursor() + t@ + restore_cursor());
                assert(s@.subrange(0, head.len() as int) =~= save_cursor() + t@.subrange(0, hl as int));
                assert(s@.subrange(s@.len() - 3, s@.len() as int) =~= restore_cursor());
                assert(s@.subrange(head.len() as int, s@.len() - 3) =~= t@.subrange(
                    hl as int,
                    t@.len() as int,
                ));
                Ok(s)
            },
        }
    }

    /// What clearing row `y` sends to the terminal: the cursor to row `y`,
    /// column one, then erase to the end of the line. Fails for `y < 0`.
    pub fn clear_from_y_text(&self, y: i16) -> (r: Result<String, PrintkError>)
        ensures
            y < 0 <==> r is Err,
            r matches Err(e) ==> (e matches PrintkError::InvalidCursor(v) && v == y),
            r matches Ok(s) ==> s@ == cursor_to(y as nat) + erase_line(),
    {
        if y < 0 {
            return Err(PrintkError::InvalidCursor(y));
        }
        let mut s = cursor_seq(y as u32);
        append_erase(&mut s);
        Ok(s)
    }

    /// What clearing `count` rows from `start_y` on sends to the terminal:
    /// each row addressed and erased in turn; nothing for `count == 0`.
    /// Fails for `start_y < 0`.
    pub fn clear_lines_text(&self, start_y: i16, count: u16) -> (r: Result<String, PrintkError>)
        ensures
            start_y < 0 <==> r is Err,
            r matches Err(e) ==> (e matches PrintkError::InvalidCursor(v) && v == start_y),
            r matches Ok(s) ==> s@ == clear_rows_seq(start_y as nat, count as nat),
    {
        if start_y < 0 {
            return Err(PrintkError::InvalidCursor(start_y));
        }
        let start = start_y as u32;
        let mut s = String::new();
        let mut i: u16 = 0;
        while i < count
            invariant
                start_y >= 0,
                start == start_y as nat,
                start <= 32767,
                i <= count,
                s@ == clear_rows_seq(start as nat, i as nat),
            decreases count - i,
        {
            let row = cursor_seq(start + i as u32);
            s.append(row.as_str());
            append_erase(&mut s);
            i = i + 1;
            assert(s@ =~= clear_rows_seq(start as nat, i as nat));
        }
        Ok(s)
    }
}

} // verus!
