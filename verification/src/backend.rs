//! What a backend answers: whether background work may spend, and how much.

use vstd::prelude::*;
use crate::text;

verus! {

/// The class of a job, by which its model is chosen.
#[derive(Debug, Clone, Copy, PartialEq, Eq, Structural)]
pub enum JobClass {
    Hunt,
    Fix,
}

impl JobClass {
    pub open spec fn text(self) -> Seq<char> {
        match self {
            JobClass::Hunt => "hunt"@,
            JobClass::Fix => "fix"@,
        }
    }

    pub fn as_str(self) -> (r: &'static str)
        ensures
            r@ == self.text(),
    {
        match self {
            JobClass::Hunt => "hunt",
            JobClass::Fix => "fix",
        }
    }
}

/// Whether a job may run. A grant without a cap sets no ceiling; a denial
/// without a time has no estimate of when it ends.
#[allow(inconsistent_fields)]
#[derive(Debug, Clone)]
pub enum Verdict {
    Granted { cap_tokens: Option<i64>, reason: String },
    Denied { reason: String, retry_at: Option<i64> },
}

#[allow(inconsistent_fields)]
pub enum VerdictView {
    Granted { cap_tokens: Option<i64>, reason: Seq<char> },
    Denied { reason: Seq<char>, retry_at: Option<i64> },
}

impl View for Verdict {
    type V = VerdictView;

    open spec fn view(&self) -> VerdictView {
        match *self {
            Verdict::Granted { cap_tokens, reason } => VerdictView::Granted {
                cap_tokens,
                reason: reason@,
            },
            Verdict::Denied { reason, retry_at } => VerdictView::Denied { reason: reason@, retry_at },
        }
    }
}

impl Verdict {
    pub fn is_granted(&self) -> (r: bool)
        ensures
            r == (self@ is Granted),
    {
        match self {
            Verdict::Granted { .. } => true,
            Verdict::Denied { .. } => false,
        }
    }

    pub fn copy(&self) -> (r: Verdict)
        ensures
            r@ == self@,
    {
        match self {
            Verdict::Granted { cap_tokens, reason } => Verdict::Granted {
                cap_tokens: *cap_tokens,
                reason: reason.clone(),
            },
            Verdict::Denied { reason, retry_at } => Verdict::Denied {
                reason: reason.clone(),
                retry_at: *retry_at,
            },
        }
    }
}

/// Two verdicts on one job: as background work, and as prioritized work.
#[derive(Debug, Clone)]
pub struct Outlook {
    pub normal: Verdict,
    pub prioritized: Verdict,
}

impl Outlook {
    /// Prioritized work is judged at least as mildly: what background work
    /// may do, it may do too.
    pub open spec fn well_formed(self) -> bool {
        self.normal@ is Granted ==> self.prioritized@ is Granted
    }

    /// The verdict that counts.
    pub fn choose_verdict(&self, prioritized: bool) -> (r: &Verdict)
        ensures
            r@ == (if prioritized { self.prioritized@ } else { self.normal@ }),
    {
        if prioritized {
            &self.prioritized
        } else {
            &self.normal
        }
    }
}

/// Said where nothing is known of any window.
pub open spec fn no_data() -> VerdictView {
    VerdictView::Denied { reason: "no window data -- deny until fresh"@, retry_at: None }
}

pub fn deny_without_data() -> (r: Verdict)
    ensures
        r@ == no_data(),
{
    Verdict::Denied { reason: "no window data -- deny until fresh".to_owned(), retry_at: None }
}

/// Shown where nothing is known of any window.
pub fn no_window_data() -> (r: String)
    ensures
        r@ == "<div class=\"scv-note\">No window data available</div>"@,
{
    "<div class=\"scv-note\">No window data available</div>".to_owned()
}

/// A backend that never has any data.
pub struct NullBackend;

impl NullBackend {
    pub fn decide(&self, anticipated_tokens: i64) -> (r: Outlook)
        ensures
            r.normal@ == no_data(),
            r.prioritized@ == no_data(),
            r.well_formed(),
    {
        let _ = anticipated_tokens;
        Outlook { normal: deny_without_data(), prioritized: deny_without_data() }
    }

    pub fn keep_fresh(&self) -> (r: bool)
        ensures
            !r,
    {
        false
    }

    pub fn status_html(&self) -> (r: String)
        ensures
            r@ == "<div class=\"scv-note\">No window data available</div>"@,
    {
        no_window_data()
    }

    /// Why it runs nothing.
    pub fn run_refusal(&self) -> (r: String)
        ensures
            r@ == "NullBackend cannot run workers"@,
    {
        "NullBackend cannot run workers".to_owned()
    }
}

/// A text as it stands in markup.
pub open spec fn escaped(s: Seq<char>) -> Seq<char> {
    text::replace_char(
        text::replace_char(
            text::replace_char(
                text::replace_char(text::replace_char(s, '&', "&amp;"@), '<', "&lt;"@),
                '>',
                "&gt;"@,
            ),
            '"',
            "&quot;"@,
        ),
        '\'',
        "&#x27;"@,
    )
}

pub fn esc(s: &str) -> (r: String)
    ensures
        r@ == escaped(s@),
{
    let a = text::replace_text(s, '&', "&amp;");
    let b = text::replace_text(&a, '<', "&lt;");
    let c = text::replace_text(&b, '>', "&gt;");
    let d = text::replace_text(&c, '"', "&quot;");
    text::replace_text(&d, '\'', "&#x27;")
}

/// Escaped text opens no tag and ends no attribute.
pub proof fn law_escaped_text_is_inert(s: Seq<char>, c: char)
    requires
        c == '<' || c == '>' || c == '"' || c == '\'',
    ensures
        !text::holds_char(escaped(s), c),
{
    let a = text::replace_char(s, '&', "&amp;"@);
    let b = text::replace_char(a, '<', "&lt;"@);
    let d = text::replace_char(b, '>', "&gt;"@);
    let e = text::replace_char(d, '"', "&quot;"@);
    reveal_strlit("&lt;");
    reveal_strlit("&gt;");
    reveal_strlit("&quot;");
    reveal_strlit("&#x27;");
    lemma_replaced(a, '<', "&lt;"@, '<');
    lemma_replaced(b, '>', "&gt;"@, '>');
    lemma_replaced(d, '"', "&quot;"@, '"');
    lemma_replaced(e, '\'', "&#x27;"@, '\'');
    lemma_kept_out(b, '>', "&gt;"@, '<');
    lemma_kept_out(d, '"', "&quot;"@, '<');
    lemma_kept_out(e, '\'', "&#x27;"@, '<');
    lemma_kept_out(d, '"', "&quot;"@, '>');
    lemma_kept_out(e, '\'', "&#x27;"@, '>');
    lemma_kept_out(e, '\'', "&#x27;"@, '"');
}

proof fn lemma_replaced(s: Seq<char>, c: char, with: Seq<char>, x: char)
    requires
        x == c,
        !text::holds_char(with, x),
    ensures
        !text::holds_char(text::replace_char(s, c, with), x),
    decreases s.len(),
{
    if s.len() > 0 {
        lemma_replaced(s.drop_last(), c, with, x);
    }
}

proof fn lemma_kept_out(s: Seq<char>, c: char, with: Seq<char>, x: char)
    requires
        !text::holds_char(s, x),
        !text::holds_char(with, x),
    ensures
        !text::holds_char(text::replace_char(s, c, with), x),
    decreases s.len(),
{
    if s.len() > 0 {
        assert(!text::holds_char(s.drop_last(), x)) by {
            if text::holds_char(s.drop_last(), x) {
                let i = choose|i: int| 0 <= i < s.drop_last().len() && s.drop_last()[i] == x;
                assert(s[i] == x);
            }
        }
        assert(s[s.len() - 1] != x);
        lemma_kept_out(s.drop_last(), c, with, x);
    }
}

/// Each character is escaped by itself: the five that mean something in
/// markup give way to their names, every other one is kept.
pub proof fn law_each_character_is_escaped(s: Seq<char>, c: char)
    ensures
        c == '&' ==> escaped(s.push(c)) == escaped(s) + "&amp;"@,
        c == '<' ==> escaped(s.push(c)) == escaped(s) + "&lt;"@,
        c == '>' ==> escaped(s.push(c)) == escaped(s) + "&gt;"@,
        c == '"' ==> escaped(s.push(c)) == escaped(s) + "&quot;"@,
        c == '\'' ==> escaped(s.push(c)) == escaped(s) + "&#x27;"@,
        c != '&' && c != '<' && c != '>' && c != '"' && c != '\'' ==> escaped(s.push(c)) == escaped(s).push(c),
        escaped(Seq::empty()) == Seq::<char>::empty(),
{
    reveal_strlit("&amp;");
    reveal_strlit("&lt;");
    reveal_strlit("&gt;");
    reveal_strlit("&quot;");
    reveal_strlit("&#x27;");
    let one = seq![c];
    let a = if c == '&' { "&amp;"@ } else { one };
    let b = if c == '<' { "&lt;"@ } else { a };
    let d = if c == '>' { "&gt;"@ } else { b };
    let e = if c == '"' { "&quot;"@ } else { d };
    let f = if c == '\'' { "&#x27;"@ } else { e };
    let s1 = text::replace_char(s, '&', "&amp;"@);
    let s2 = text::replace_char(s1, '<', "&lt;"@);
    let s3 = text::replace_char(s2, '>', "&gt;"@);
    let s4 = text::replace_char(s3, '"', "&quot;"@);
    let s5 = text::replace_char(s4, '\'', "&#x27;"@);
    assert(s.push(c) =~= s + one);
    lemma_replaced_apart(s, one, '&', "&amp;"@);
    lemma_one_replaced(c, '&', "&amp;"@);
    lemma_replaced_apart(s1, a, '<', "&lt;"@);
    if c == '<' {
        lemma_one_replaced(c, '<', "&lt;"@);
    } else {
        lemma_nothing_replaced(a, '<', "&lt;"@);
    }
    lemma_replaced_apart(s2, b, '>', "&gt;"@);
    if c == '>' {
        lemma_one_replaced(c, '>', "&gt;"@);
    } else {
        lemma_nothing_replaced(b, '>', "&gt;"@);
    }
    lemma_replaced_apart(s3, d, '"', "&quot;"@);
    if c == '"' {
        lemma_one_replaced(c, '"', "&quot;"@);
    } else {
        lemma_nothing_replaced(d, '"', "&quot;"@);
    }
    lemma_replaced_apart(s4, e, '\'', "&#x27;"@);
    if c == '\'' {
        lemma_one_replaced(c, '\'', "&#x27;"@);
    } else {
        lemma_nothing_replaced(e, '\'', "&#x27;"@);
    }
    assert(escaped(s.push(c)) == s5 + f);
    assert(s5 + one =~= s5.push(c));
}

proof fn lemma_replaced_apart(a: Seq<char>, b: Seq<char>, c: char, with: Seq<char>)
    ensures
        text::replace_char(a + b, c, with) == text::replace_char(a, c, with) + text::replace_char(b, c, with),
    decreases b.len(),
{
    if b.len() == 0 {
        assert(a + b =~= a);
        assert(text::replace_char(a, c, with) + text::replace_char(b, c, with) =~= text::replace_char(a, c, with));
    } else {
        lemma_replaced_apart(a, b.drop_last(), c, with);
        assert((a + b).drop_last() =~= a + b.drop_last());
        let x = if b.last() == c { with } else { seq![b.last()] };
        assert(text::replace_char(a, c, with) + (text::replace_char(b.drop_last(), c, with) + x)
            =~= text::replace_char(a, c, with) + text::replace_char(b.drop_last(), c, with) + x);
    }
}

proof fn lemma_one_replaced(x: char, c: char, with: Seq<char>)
    ensures
        text::replace_char(seq![x], c, with) == (if x == c { with } else { seq![x] }),
{
    reveal_with_fuel(text::replace_char, 2);
    assert(seq![x].drop_last() =~= Seq::<char>::empty());
    assert(text::replace_char(seq![x], c, with) =~= (if x == c { with } else { seq![x] }));
}

proof fn lemma_nothing_replaced(s: Seq<char>, c: char, with: Seq<char>)
    requires
        !text::holds_char(s, c),
    ensures
        text::replace_char(s, c, with) == s,
    decreases s.len(),
{
    if s.len() > 0 {
        let short = s.drop_last();
        assert(!text::holds_char(short, c)) by {
            if text::holds_char(short, c) {
                let i = choose|i: int| 0 <= i < short.len() && short[i] == c;
                assert(s[i] == c);
            }
        }
        assert(s[s.len() - 1] != c);
        lemma_nothing_replaced(short, c, with);
        assert(text::replace_char(s, c, with) =~= s);
    } else {
        assert(text::replace_char(s, c, with) =~= s);
    }
}

} // verus!
