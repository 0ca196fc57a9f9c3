//! The text of the braille display, recovered from the terminal stream that
//! BRLTTY's TTY driver renders with curses.
//!
//! Each screen update in that stream reads
//! `ESC[H ESC[2J <text> \r ESC[2d <braille dots> ESC[<cursor>`; several
//! updates may follow one another in what was read, and the text of the last
//! complete one is what the display shows.
use vstd::prelude::*;
use crate::pattern::{compile, regex_compiles, regex_replace_all, regex_replace_first, replace_all, replace_first, Pattern};
use crate::text::{chars_of, decode_lossy, is_trimmed, lemma_trim_is_trimmed, lemma_trim_keeps_characters, push_char, string_of, trim, trimmed, utf8_lossy};

verus! {

/// Escape sequences and control characters that curses leaves in the text.
pub const ANSI_ESCAPES: &'static str = r"\x1b\[[^a-zA-Z]*[a-zA-Z]|\x1b\[\?[0-9;]*[a-zA-Z]|\x1b[()][0B]|\x1b[=>]|\x0f|\x08";

/// Trailing curses noise: the cursor indicator `{`, echo fragments such as
/// `[B`, `[A`, and `$l`.
pub const TRAILING_NOISE: &'static str = r"\s*\{(?:\[.)*(?:\s*\$l)?\s*$|\s*\$l\s*$";

/// The sequence that starts a screen update: cursor home, then clear screen.
pub open spec fn clear_screen() -> Seq<char> {
    seq!['\x1b', '[', 'H', '\x1b', '[', '2', 'J']
}

/// The sequence that moves the cursor to the second row, where the braille
/// dots are drawn.
pub open spec fn second_row() -> Seq<char> {
    seq!['\x1b', '[', '2', 'd']
}

/// Whether `p` occurs in `s` at index `i`.
pub open spec fn occurs_at(s: Seq<char>, p: Seq<char>, i: int) -> bool {
    &&& 0 <= i
    &&& i + p.len() <= s.len()
    &&& s.subrange(i, i + p.len()) == p
}

/// The index of the last occurrence of `p` in `s` that starts before `n`.
pub open spec fn last_occurrence_before(s: Seq<char>, p: Seq<char>, n: int) -> Option<int>
    decreases n,
{
    if n <= 0 {
        None
    } else if occurs_at(s, p, n - 1) {
        Some(n - 1)
    } else {
        last_occurrence_before(s, p, n - 1)
    }
}

/// The index of the first occurrence of `p` in `s` that starts at `i` or later.
pub open spec fn first_occurrence_from(s: Seq<char>, p: Seq<char>, i: int) -> Option<int>
    decreases s.len() - i,
{
    if i < 0 || i >= s.len() || i + p.len() > s.len() {
        None
    } else if occurs_at(s, p, i) {
        Some(i)
    } else {
        first_occurrence_from(s, p, i + 1)
    }
}

/// Where the text of the last screen update starts: just after the last
/// clear-screen sequence, or at the start when there is none.
pub open spec fn text_start(raw: Seq<char>) -> int {
    match last_occurrence_before(raw, clear_screen(), raw.len() as int) {
        Some(i) => i + clear_screen().len(),
        None => 0,
    }
}

/// Where that text ends: at the first `\r` after its start; failing that, at
/// the first move to the second row; failing that, at the end.
pub open spec fn text_end(raw: Seq<char>) -> int {
    let start: int = text_start(raw);
    match first_occurrence_from(raw, seq!['\r'], start) {
        Some(i) => i,
        None => match first_occurrence_from(raw, second_row(), start) {
            Some(i) => i,
            None => raw.len() as int,
        },
    }
}

/// The text of the last screen update, escape sequences still in it.
pub open spec fn text_region(raw: Seq<char>) -> Seq<char> {
    raw.subrange(text_start(raw), text_end(raw))
}

/// Whether a character of the text is kept: braille patterns (U+2800 to
/// U+28FF) and control characters other than the newline are dropped.
pub open spec fn shown_char(c: char) -> bool {
    &&& !('\u{2800}' <= c <= '\u{28ff}')
    &&& (c >= ' ' || c == '\n')
}

/// The characters of `s` that are shown, in order.
pub open spec fn shown_part(s: Seq<char>) -> Seq<char> {
    s.filter(|c: char| shown_char(c))
}

/// Whether every character of `s` is one that is shown.
pub open spec fn all_shown(s: Seq<char>) -> bool {
    forall|i: int| 0 <= i < s.len() ==> shown_char(#[trigger] s[i])
}

/// The text that `raw` shows: the text of its last screen update with the
/// escape sequences removed, the braille and control characters dropped, the
/// trailing curses noise removed, and the white space at both ends trimmed.
pub open spec fn extracted_text(raw: Seq<char>) -> Seq<char> {
    let clean = regex_replace_all(ANSI_ESCAPES@, text_region(raw), Seq::empty());
    let kept = clean.filter(|c: char| shown_char(c));
    trim(regex_replace_first(TRAILING_NOISE@, kept, Seq::empty()))
}

proof fn lemma_last_occurrence_occurs(s: Seq<char>, p: Seq<char>, n: int)
    ensures
        last_occurrence_before(s, p, n) matches Some(i) ==> i < n && occurs_at(s, p, i),
    decreases n,
{
    if n > 0 && !occurs_at(s, p, n - 1) {
        lemma_last_occurrence_occurs(s, p, n - 1);
    }
}

proof fn lemma_first_occurrence_occurs(s: Seq<char>, p: Seq<char>, k: int)
    ensures
        first_occurrence_from(s, p, k) matches Some(i) ==> k <= i && occurs_at(s, p, i),
    decreases s.len() - k,
{
    if !(k < 0 || k >= s.len() || k + p.len() > s.len()) && !occurs_at(s, p, k) {
        lemma_first_occurrence_occurs(s, p, k + 1);
    }
}

/// Whether `p` occurs in `s` at index `i`.
fn occurs_at_index(s: &Vec<char>, p: &Vec<char>, i: usize) -> (b: bool)
    requires
        i <= s@.len(),
    ensures
        b == occurs_at(s@, p@, i as int),
{
    if p.len() > s.len() - i {
        return false;
    }
    let mut k: usize = 0;
    while k < p.len()
        invariant
            i + p@.len() <= s.len(),
            k <= p@.len(),
            forall|j: int| 0 <= j < k ==> s@[i + j] == p@[j],
        decreases p@.len() - k,
    {
        if s[i + k] != p[k] {
            assert(s@.subrange(i as int, i + p@.len())[k as int] != p@[k as int]);
            return false;
        }
        k = k + 1;
    }
    assert(s@.subrange(i as int, i + p@.len()) == p@);
    true
}

/// The index of the last occurrence of `p` in `s`.
fn last_occurrence(s: &Vec<char>, p: &Vec<char>) -> (r: Option<usize>)
    ensures
        match r {
            Some(i) => last_occurrence_before(s@, p@, s@.len() as int) == Some(i as int),
            None => last_occurrence_before(s@, p@, s@.len() as int) is None,
        },
{
    let mut n: usize = s.len();
    while n > 0
        invariant
            n <= s@.len(),
            last_occurrence_before(s@, p@, s@.len() as int) == last_occurrence_before(
                s@,
                p@,
                n as int,
            ),
        decreases n,
    {
        if occurs_at_index(s, p, n - 1) {
            return Some(n - 1);
        }
        n = n - 1;
    }
    None
}

/// The index of the first occurrence of `p` in `s` at `from` or later.
fn first_occurrence(s: &Vec<char>, p: &Vec<char>, from: usize) -> (r: Option<usize>)
    ensures
        match r {
            Some(i) => first_occurrence_from(s@, p@, from as int) == Some(i as int),
            None => first_occurrence_from(s@, p@, from as int) is None,
        },
{
    let mut i: usize = from;
    while i < s.len() && p.len() <= s.len() - i
        invariant
            from <= i,
            first_occurrence_from(s@, p@, from as int) == first_occurrence_from(s@, p@, i as int),
        decreases s@.len() - i,
    {
        if occurs_at_index(s, p, i) {
            return Some(i);
        }
        i = i + 1;
    }
    None
}

/// The two expressions that clean the screen text, compiled.
pub struct TextPatterns {
    ansi: Pattern,
    noise: Pattern,
}

impl TextPatterns {
    #[verifier::type_invariant]
    spec fn compiled_from_the_screen_patterns(self) -> bool {
        &&& self.ansi@ == ANSI_ESCAPES@
        &&& self.noise@ == TRAILING_NOISE@
    }

    /// Compiles `ANSI_ESCAPES` and `TRAILING_NOISE`; `None` where either
    /// does not compile.
    pub fn new() -> (r: Option<Self>)
        ensures
            r is Some <==> (regex_compiles(ANSI_ESCAPES@) && regex_compiles(TRAILING_NOISE@)),
    {
        match compile(ANSI_ESCAPES) {
            Some(ansi) => match compile(TRAILING_NOISE) {
                Some(noise) => Some(TextPatterns { ansi, noise }),
                None => None,
            },
            None => None,
        }
    }
}

/// The characters of `v` that are shown, in order.
fn shown_chars(v: &Vec<char>) -> (s: String)
    ensures
        s@ == v@.filter(|c: char| shown_char(c)),
{
    let mut s = String::new();
    let mut i: usize = 0;
    while i < v.len()
        invariant
            i <= v@.len(),
            s@ == v@.take(i as int).filter(|c: char| shown_char(c)),
        decreases v@.len() - i,
    {
        reveal_with_fuel(Seq::<_>::filter, 1);
        let c = v[i];
        if !('\u{2800}' <= c && c <= '\u{28ff}') && (c >= ' ' || c == '\n') {
            push_char(&mut s, c);
        }
        assert(v@.take(i + 1).drop_last() == v@.take(i as int));
        i = i + 1;
    }
    assert(v@.take(v@.len() as int) == v@);
    s
}

/// Extracts the displayed text from what BRLTTY rendered: see
/// `extracted_text`.
pub fn extract_text(raw: &str, patterns: &TextPatterns) -> (text: String)
    ensures
        text@ == extracted_text(raw@),
        raw@.len() == 0 ==> text@.len() == 0,
        all_shown(text@),
{
    proof {
        use_type_invariant(patterns);
        reveal_strlit("");
        assert(""@ =~= Seq::<char>::empty());
    }
    let chars = chars_of(raw);
    let clear = vec!['\x1b', '[', 'H', '\x1b', '[', '2', 'J'];
    let cr = vec!['\r'];
    let row2 = vec!['\x1b', '[', '2', 'd'];
    assert(clear@ == clear_screen());
    assert(cr@ == seq!['\r']);
    assert(row2@ == second_row());
    proof {
        lemma_last_occurrence_occurs(chars@, clear@, chars@.len() as int);
    }
    let start: usize = match last_occurrence(&chars, &clear) {
        Some(i) => {
            assert(occurs_at(chars@, clear@, i as int));
            assert(clear@.len() == 7);
            assert(i + 7 <= chars.len());
            i + 7
        },
        None => 0,
    };
    proof {
        lemma_first_occurrence_occurs(chars@, cr@, start as int);
        lemma_first_occurrence_occurs(chars@, row2@, start as int);
    }
    let end: usize = match first_occurrence(&chars, &cr, start) {
        Some(i) => i,
        None => match first_occurrence(&chars, &row2, start) {
            Some(i) => i,
            None => chars.len(),
        },
    };
    assert(text_start(raw@) == start);
    assert(text_end(raw@) == end);
    let region = string_of(&chars, start, end);
    let clean = replace_all(&patterns.ansi, region.as_str(), "");
    let clean_chars = chars_of(clean.as_str());
    let kept = shown_chars(&clean_chars);
    let quiet = replace_first(&patterns.noise, kept.as_str(), "");
    let t = trimmed(&chars_of(quiet.as_str()));
    proof {
        assert forall|i: int| 0 <= i < t@.len() implies shown_char(#[trigger] t@[i]) by {
            lemma_trim_keeps_characters(quiet@, t@[i]);
            assert(trim(quiet@).contains(t@[i]));
            let j = choose|j: int| 0 <= j < quiet@.len() && quiet@[j] == t@[i];
            assert(kept@.contains(quiet@[j]));
            let k = choose|k: int| 0 <= k < kept@.len() && kept@[k] == quiet@[j];
            clean_chars@.lemma_filter_pred(|c: char| shown_char(c), k);
        }
        if raw@.len() == 0 {
            assert(clean@.len() == 0);
            reveal_with_fuel(Seq::<_>::filter, 1);
            assert(kept@.len() == 0);
            assert(quiet@ =~= Seq::<char>::empty());
        }
    }
    t
}


proof fn lemma_occurs_in_suffix(b: Seq<char>, u: Seq<char>, p: Seq<char>, i: int)
    requires
        i >= b.len(),
    ensures
        occurs_at(b + u, p, i) <==> occurs_at(u, p, i - b.len()),
{
    if i + p.len() <= (b + u).len() {
        assert((b + u).subrange(i, i + p.len()) =~= u.subrange(i - b.len(), i - b.len() + p.len()));
    }
}

proof fn lemma_last_occurrence_is(s: Seq<char>, p: Seq<char>, n: int, k: int)
    requires
        0 <= k < n,
        occurs_at(s, p, k),
        forall|j: int| k < j < n ==> !occurs_at(s, p, j),
    ensures
        last_occurrence_before(s, p, n) == Some(k),
    decreases n,
{
    if n - 1 != k {
        lemma_last_occurrence_is(s, p, n - 1, k);
    }
}

proof fn lemma_first_occurrence_shift(b: Seq<char>, u: Seq<char>, p: Seq<char>, k: int)
    requires
        0 <= k,
    ensures
        first_occurrence_from(b + u, p, b.len() + k) == (match first_occurrence_from(u, p, k) {
            Some(i) => Some(i + b.len()),
            None => None,
        }),
    decreases u.len() - k,
{
    lemma_occurs_in_suffix(b, u, p, b.len() + k);
    if !(k >= u.len() || k + p.len() > u.len()) && !occurs_at(u, p, k) {
        lemma_first_occurrence_shift(b, u, p, k + 1);
        assert(b.len() + k + 1 == b.len() + (k + 1));
    }
}

/// Updates concatenate in what is received, and the last complete one
/// decides the text: whatever came before a screen update, which starts
/// with the clear-screen sequence and holds no other, the text is that of
/// the update alone.
pub proof fn lemma_last_update_wins(before: Seq<char>, update: Seq<char>)
    requires
        occurs_at(update, clear_screen(), 0),
        forall|i: int| 0 < i ==> !occurs_at(update, clear_screen(), i),
    ensures
        text_region(before + update) == text_region(update),
        extracted_text(before + update) == extracted_text(update),
{
    let s = before + update;
    let c = clear_screen();
    let b: int = before.len() as int;
    lemma_occurs_in_suffix(before, update, c, b);
    assert forall|j: int| b < j < s.len() implies !occurs_at(s, c, j) by {
        lemma_occurs_in_suffix(before, update, c, j);
    }
    lemma_last_occurrence_is(s, c, s.len() as int, b);
    lemma_last_occurrence_is(update, c, update.len() as int, 0);
    assert(text_start(s) == b + 7);
    assert(text_start(update) == 7);
    lemma_first_occurrence_shift(before, update, seq!['\r'], 7);
    lemma_first_occurrence_shift(before, update, second_row(), 7);
    lemma_first_occurrence_occurs(update, seq!['\r'], 7);
    lemma_first_occurrence_occurs(update, second_row(), 7);
    assert(text_end(s) == b + text_end(update));
    assert(text_region(s) =~= text_region(update));
}

/// The extracted text never starts or ends with white space.
pub proof fn lemma_extracted_text_is_trimmed(raw: Seq<char>)
    ensures
        is_trimmed(extracted_text(raw)),
{
    let clean = regex_replace_all(ANSI_ESCAPES@, text_region(raw), Seq::empty());
    let kept = clean.filter(|c: char| shown_char(c));
    lemma_trim_is_trimmed(regex_replace_first(TRAILING_NOISE@, kept, Seq::empty()));
}

/// The character filter drops exactly the braille patterns (U+2800 to
/// U+28FF) and the control characters below the space other than the
/// newline: every other character is kept, the newline included.
pub proof fn lemma_filter_drops_only_braille_and_controls(c: char)
    ensures
        ('\u{2800}' <= c <= '\u{28ff}') ==> !shown_char(c),
        (c < ' ' && c != '\n') ==> !shown_char(c),
        (' ' <= c < '\u{2800}') ==> shown_char(c),
        c > '\u{28ff}' ==> shown_char(c),
        shown_char('\n'),
{
}

/// Filtering the cleaned text keeps exactly its characters that are neither
/// braille patterns nor control characters other than the newline: each
/// such character of the input is in the output, and every character of the
/// output is one.
pub proof fn lemma_filter_keeps_every_visible_character(clean: Seq<char>, i: int)
    requires
        0 <= i < clean.len(),
        !('\u{2800}' <= clean[i] <= '\u{28ff}'),
        clean[i] >= ' ' || clean[i] == '\n',
    ensures
        clean.filter(|c: char| shown_char(c)).contains(clean[i]),
        forall|k: int|
            0 <= k < shown_part(clean).len() ==> !('\u{2800}' <= #[trigger] shown_part(clean)[k] <= '\u{28ff}')
                && (shown_part(clean)[k] >= ' ' || shown_part(clean)[k] == '\n'),
{
    clean.lemma_filter_contains(|c: char| shown_char(c), i);
    assert forall|k: int| 0 <= k < shown_part(clean).len() implies !('\u{2800}' <= #[trigger] shown_part(clean)[k] <= '\u{28ff}')
        && (shown_part(clean)[k] >= ' ' || shown_part(clean)[k] == '\n') by {
        clean.lemma_filter_pred(|c: char| shown_char(c), k);
    }
}

/// Only what is left once the escape sequences are removed from the text of
/// the last update decides the extracted text: two inputs whose last-update
/// text reads the same without its escape sequences give the same text.
/// So the escape sequences are gone before the trailing noise is looked for.
pub proof fn lemma_text_depends_only_on_unescaped_region(raw1: Seq<char>, raw2: Seq<char>)
    requires
        regex_replace_all(ANSI_ESCAPES@, text_region(raw1), Seq::empty())
            == regex_replace_all(ANSI_ESCAPES@, text_region(raw2), Seq::empty()),
    ensures
        extracted_text(raw1) == extracted_text(raw2),
{
}

/// Only the text of the last update decides the extracted text: two inputs
/// with the same last-update text give the same text.
pub proof fn lemma_text_depends_only_on_region(raw1: Seq<char>, raw2: Seq<char>)
    requires
        text_region(raw1) == text_region(raw2),
    ensures
        extracted_text(raw1) == extracted_text(raw2),
{
}

/// What a read of the screen gives, from the text received since the last
/// read and the text shown before it: the newly extracted text where it is
/// not empty, and otherwise the text shown before.
pub open spec fn text_after_read(pending: Seq<char>, shown: Seq<char>) -> Seq<char> {
    let text = extracted_text(pending);
    if text.len() > 0 {
        text
    } else {
        shown
    }
}

/// A read after an update whose extracted text is not empty gives exactly
/// that text, of whatever length, whatever was shown before; only where the
/// extracted text is empty is the text shown before kept.
pub proof fn lemma_read_gives_the_new_text(pending: Seq<char>, shown: Seq<char>)
    ensures
        extracted_text(pending).len() > 0 ==> text_after_read(pending, shown) == extracted_text(pending),
        extracted_text(pending).len() == 0 ==> text_after_read(pending, shown) == shown,
{
}

/// Once the screen has shown some text, every later read shows some text.
pub proof fn lemma_shown_text_persists(pending: Seq<char>, shown: Seq<char>)
    requires
        shown.len() > 0,
    ensures
        text_after_read(pending, shown).len() > 0,
{
}

/// The text a read gives never starts or ends with white space, if the text
/// shown before did not.
pub proof fn lemma_read_text_is_trimmed(pending: Seq<char>, shown: Seq<char>)
    requires
        is_trimmed(shown),
    ensures
        is_trimmed(text_after_read(pending, shown)),
{
    lemma_extracted_text_is_trimmed(pending);
}

/// What the read loop does once it has drained what the terminal had.
#[derive(Debug, Clone, Copy, PartialEq, Eq, Structural)]
pub enum PollAction {
    /// New content arrived: stop polling and read it.
    Finish,
    /// Nothing yet: sleep, then poll again.
    SleepAndRetry,
    /// Nothing on the last attempt: sleep, then stop polling.
    SleepAndFinish,
}

/// How many times a read polls the terminal for new content.
pub const POLL_ATTEMPTS: u32 = 20;

/// How long a read waits between two polls of the terminal, in milliseconds.
pub const POLL_PAUSE_MS: u64 = 100;

/// How many bytes a single read of the terminal takes at most.
pub const READ_CHUNK: usize = 8192;

/// The text side of the braille screen: what has been received from BRLTTY
/// since the last read, and the text shown at the last read.
pub struct BrailleScreen {
    buf: String,
    last_text: String,
    patterns: TextPatterns,
}

impl BrailleScreen {
    #[verifier::type_invariant]
    spec fn shown_text_is_clean(self) -> bool {
        &&& is_trimmed(self.last_text@)
        &&& all_shown(self.last_text@)
    }

    /// The text received since the last read.
    pub closed spec fn pending(&self) -> Seq<char> {
        self.buf@
    }

    /// The text shown at the last read.
    pub closed spec fn shown(&self) -> Seq<char> {
        self.last_text@
    }

    /// A screen that has received nothing and shows nothing; `None` where the
    /// patterns that clean the text do not compile.
    pub fn new() -> (r: Option<Self>)
        ensures
            r is Some <==> (regex_compiles(ANSI_ESCAPES@) && regex_compiles(TRAILING_NOISE@)),
            r matches Some(s) ==> s.pending().len() == 0 && s.shown().len() == 0,
    {
        match TextPatterns::new() {
            Some(patterns) => Some(BrailleScreen { buf: String::new(), last_text: String::new(), patterns }),
            None => None,
        }
    }

    /// Takes in bytes read from the terminal, decoded as UTF-8 with each
    /// invalid sequence replaced.
    pub fn absorb(&mut self, bytes: &[u8])
        ensures
            final(self).pending() == old(self).pending() + utf8_lossy(bytes@),
            final(self).shown() == old(self).shown(),
    {
        proof {
            use_type_invariant(&*self);
        }
        let chunk = decode_lossy(bytes);
        let mut received = String::new();
        std::mem::swap(&mut received, &mut self.buf);
        received.append(chunk.as_str());
        self.buf = received;
    }

    /// Takes the outcome of one read of the terminal: the bytes read
    /// (`Some`, empty at the end of the data) or a failure (`None`). The bytes
    /// are taken in; gives whether to read again, which is so only when some
    /// bytes came.
    pub fn take_read(&mut self, read: Option<&[u8]>) -> (more: bool)
        ensures
            more <==> (read matches Some(b) && b@.len() > 0),
            more ==> (read matches Some(b) ==> final(self).pending() == old(self).pending()
                + utf8_lossy(b@)),
            !more ==> final(self).pending() == old(self).pending(),
            final(self).shown() == old(self).shown(),
    {
        match read {
            Some(bytes) => {
                if bytes.len() == 0 {
                    false
                } else {
                    self.absorb(bytes);
                    true
                }
            },
            None => false,
        }
    }

    /// What the read loop does after draining the terminal on attempt
    /// `attempt` (counted from 0): stop as soon as something was received,
    /// else sleep, and stop after `POLL_ATTEMPTS` attempts.
    pub fn after_drain(&self, attempt: u32) -> (a: PollAction)
        ensures
            self.pending().len() > 0 ==> a == PollAction::Finish,
            self.pending().len() == 0 && attempt + 1 < POLL_ATTEMPTS ==> a == PollAction::SleepAndRetry,
            self.pending().len() == 0 && attempt + 1 >= POLL_ATTEMPTS ==> a == PollAction::SleepAndFinish,
    {
        if !self.buf.as_str().is_empty() {
            PollAction::Finish
        } else if attempt < POLL_ATTEMPTS - 1 {
            PollAction::SleepAndRetry
        } else {
            PollAction::SleepAndFinish
        }
    }

    /// Reads the current display text: extracts the text of the last screen
    /// update received, forgets what was received, and keeps the new text
    /// where it is not empty. Gives the text now shown.
    pub fn read(&mut self) -> (text: String)
        ensures
            text@ == text_after_read(old(self).pending(), old(self).shown()),
            extracted_text(old(self).pending()).len() > 0 ==> text@ == extracted_text(old(self).pending()),
            extracted_text(old(self).pending()).len() == 0 ==> text@ == old(self).shown(),
            final(self).shown() == text@,
            final(self).pending().len() == 0,
            old(self).pending().len() == 0 ==> text@ == old(self).shown(),
            is_trimmed(text@),
            all_shown(text@),
    {
        proof {
            use_type_invariant(&*self);
            lemma_read_text_is_trimmed(self.buf@, self.last_text@);
        }
        let text = extract_text(self.buf.as_str(), &self.patterns);
        self.buf = String::new();
        if !text.as_str().is_empty() {
            self.last_text = text;
        }
        self.last_text.clone()
    }
}

} // verus!
