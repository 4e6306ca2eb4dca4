//! Worker prompts, rendered from templates with `{{SLOT}}` placeholders.
//!
//! Only the template is scanned: a value is inserted as it is and never read
//! again, so nothing in it can look like a placeholder.

use vstd::prelude::*;
use vstd::utf8::*;
use crate::domain::{FindingJobKind, FindingType, RepoJobKind};
use crate::forge::{GhAuthor, GhCheckRun, GhComment, GhReview, PrView};
use crate::text;
use crate::text::Cut;
use crate::types::{Finding, PrState, Repo};
use crate::util;

verus! {

/// The directory of the templates.
pub fn playbook_dir(root: &str) -> (r: String)
    ensures
        r@ == util::path_join(root@, "playbooks"@),
{
    util::join_path(root, "playbooks")
}

// ---------------------------------------------------------------------
// Rendering
// ---------------------------------------------------------------------

/// The values of a template's slots.
pub struct Slots {
    pairs: Vec<(String, String)>,
}

pub closed spec fn pairs_map(v: Seq<(String, String)>) -> Map<Seq<char>, Seq<char>>
    decreases v.len(),
{
    if v.len() == 0 {
        Map::empty()
    } else {
        pairs_map(v.drop_last()).insert(v.last().0@, v.last().1@)
    }
}

impl View for Slots {
    type V = Map<Seq<char>, Seq<char>>;

    closed spec fn view(&self) -> Map<Seq<char>, Seq<char>> {
        pairs_map(self.pairs@)
    }
}

/// The value of a slot.
pub open spec fn slot(m: Map<Seq<char>, Seq<char>>, key: Seq<char>) -> Option<Seq<char>> {
    if m.contains_key(key) { Some(m[key]) } else { None }
}

impl Slots {
    pub fn new() -> (r: Slots)
        ensures
            r@ == Map::<Seq<char>, Seq<char>>::empty(),
    {
        Slots { pairs: Vec::new() }
    }

    /// Fill a slot; a value that it had before is replaced.
    pub fn put(&mut self, key: &str, value: &str)
        ensures
            final(self)@ == old(self)@.insert(key@, value@),
    {
        let ghost before = self.pairs@;
        self.pairs.push((key.to_owned(), value.to_owned()));
        assert(self.pairs@.drop_last() =~= before);
    }

    pub fn get(&self, key: &str) -> (r: Option<&String>)
        ensures
            match r {
                Some(v) => slot(self@, key@) == Some(v@),
                None => slot(self@, key@) is None,
            },
    {
        let ghost all = self.pairs@;
        let mut i: usize = self.pairs.len();
        assert(all.take(i as int) =~= all);
        while i > 0
            invariant
                i <= self.pairs@.len(),
                all == self.pairs@,
                slot(self@, key@) == slot(pairs_map(all.take(i as int)), key@),
            decreases i,
        {
            let ghost part = all.take(i as int);
            assert(part.drop_last() =~= all.take(i - 1));
            i = i - 1;
            if text::same(&self.pairs[i].0, key) {
                return Some(&self.pairs[i].1);
            }
        }
        None
    }
}

/// What a template comes to: each placeholder replaced by its slot's value,
/// or the first thing that is wrong with it.
pub open spec fn rendered(t: Seq<char>, m: Map<Seq<char>, Seq<char>>) -> Result<Seq<char>, Seq<char>>
    decreases t.len(),
{
    match text::find(t, "{{"@) {
        None => Ok(t),
        Some(open) => if open < 0 || open + 2 > t.len() {
            Ok(t)
        } else {
            let after = t.skip(open + 2);
            match text::find(after, "}}"@) {
                None => Err(
                    "unterminated placeholder in playbook: "@ + text::first_chars(t.skip(open), 60),
                ),
                Some(close) => if close < 0 || close + 2 > after.len() {
                    Ok(t)
                } else {
                    let key = after.take(close);
                    match slot(m, key) {
                        None => Err("unfilled placeholder in playbook: {{"@ + key + "}}"@),
                        Some(value) => match rendered(after.skip(close + 2), m) {
                            Ok(rest) => Ok(t.take(open) + value + rest),
                            Err(e) => Err(e),
                        },
                    }
                },
            }
        },
    }
}

/// A prefix that is already rendered, and what the rest comes to.
pub open spec fn prefixed(done: Seq<char>, r: Result<Seq<char>, Seq<char>>) -> Result<Seq<char>, Seq<char>> {
    match r {
        Ok(rest) => Ok(done + rest),
        Err(e) => Err(e),
    }
}

/// The same outcome, with its texts as strings.
pub open spec fn outcome(r: Result<String, String>) -> Result<Seq<char>, Seq<char>> {
    match r {
        Ok(s) => Ok(s@),
        Err(e) => Err(e@),
    }
}

/// Substitute the slots of a template, in a single pass.
pub fn render(template: &str, slots: &Slots) -> (r: Result<String, String>)
    ensures
        outcome(r) == rendered(template@, slots@),
{
    let ghost m = slots@;
    let mut out = String::new();
    let mut rest: String = template.to_owned();
    proof {
        reveal_strlit("{{");
        reveal_strlit("}}");
        assert(prefixed(out@, rendered(rest@, m)) == rendered(template@, m)) by {
            if let Ok(x) = rendered(template@, m) {
                assert(out@ + x =~= x);
            }
        }
    }
    loop
        invariant
            m == slots@,
            "{{"@.len() == 2,
            "}}"@.len() == 2,
            prefixed(out@, rendered(rest@, m)) == rendered(template@, m),
        decreases rest@.len(),
    {
        match text::find_text(&rest, "{{") {
            None => {
                out.append(&rest);
                return Ok(out);
            },
            Some(open) => {
                let total: usize = rest.as_str().unicode_len();
                proof {
                    text::lemma_find_from(rest@, "{{"@, 0);
                }
                assert(open + 2 <= total);
                let start = text::before(&rest, open);
                let after = text::skip_chars(&rest, open + 2);
                match text::find_text(&after, "}}") {
                    None => {
                        let from = text::skip_chars(&rest, open);
                        let snippet = text::take_chars(&from, 60);
                        return Err(
                            "unterminated placeholder in playbook: ".to_owned().concat(&snippet),
                        );
                    },
                    Some(close) => {
                        let left: usize = after.as_str().unicode_len();
                        proof {
                            text::lemma_find_from(after@, "}}"@, 0);
                        }
                        assert(close + 2 <= left);
                        let key = text::before(&after, close);
                        match slots.get(&key) {
                            None => {
                                return Err(
                                    "unfilled placeholder in playbook: {{".to_owned().concat(
                                        &key,
                                    ).concat("}}"),
                                );
                            },
                            Some(value) => {
                                let ghost done = out@;
                                let ghost was = rest@;
                                out.append(&start);
                                out.append(value);
                                let next = text::skip_chars(&after, close + 2);
                                proof {
                                    assert(rendered(was, m) == prefixed(
                                        start@ + value@,
                                        rendered(next@, m),
                                    ));
                                    if let Ok(x) = rendered(next@, m) {
                                        assert(done + (start@ + value@ + x) =~= done + start@ + value@
                                            + x);
                                    }
                                }
                                rest = next;
                            },
                        }
                    },
                }
            },
        }
    }
}

// ---------------------------------------------------------------------
// Blocks of text
// ---------------------------------------------------------------------

pub open spec fn suppression_line(f: Finding) -> Seq<char> {
    "- "@ + f.fingerprint@ + " -- "@ + match f.verdict_reason {
        Some(s) => s@,
        None => "(no reason recorded)"@,
    }
}

/// The findings that were rejected, with the reasons.
pub open spec fn suppressions_text(v: Seq<Finding>) -> Seq<char> {
    if v.len() == 0 {
        "(none yet)"@
    } else {
        text::join(v.map_values(|f: Finding| suppression_line(f)), "\n"@)
    }
}

pub fn suppressions_block(suppressions: &Vec<Finding>) -> (r: String)
    ensures
        r@ == suppressions_text(suppressions@),
{
    if suppressions.len() == 0 {
        return "(none yet)".to_owned();
    }
    let mut lines = text::no_texts();
    let mut i: usize = 0;
    while i < suppressions.len()
        invariant
            i <= suppressions@.len(),
            text::texts(lines@) == suppressions@.take(i as int).map_values(
                |f: Finding| suppression_line(f),
            ),
        decreases suppressions@.len() - i,
    {
        let f = &suppressions[i];
        let reason: &str = match &f.verdict_reason {
            Some(s) => s.as_str(),
            None => "(no reason recorded)",
        };
        let line = "- ".to_owned().concat(&f.fingerprint).concat(" -- ").concat(reason);
        text::add_text(&mut lines, &line);
        assert(text::texts(lines@) =~= suppressions@.take(i + 1).map_values(
            |f: Finding| suppression_line(f),
        ));
        i = i + 1;
    }
    assert(suppressions@.take(suppressions@.len() as int) =~= suppressions@);
    text::join_texts(&lines, "\n")
}

pub open spec fn known_line(f: Finding) -> Seq<char> {
    "- "@ + f.fingerprint@ + " ["@ + f.status.text() + "] -- "@ + f.summary@
}

/// The findings that are known.
pub open spec fn known_text(v: Seq<Finding>) -> Seq<char> {
    if v.len() == 0 {
        "(none yet)"@
    } else {
        text::join(v.map_values(|f: Finding| known_line(f)), "\n"@)
    }
}

pub fn known_block(known: &Vec<Finding>) -> (r: String)
    ensures
        r@ == known_text(known@),
{
    if known.len() == 0 {
        return "(none yet)".to_owned();
    }
    let mut lines = text::no_texts();
    let mut i: usize = 0;
    while i < known.len()
        invariant
            i <= known@.len(),
            text::texts(lines@) == known@.take(i as int).map_values(|f: Finding| known_line(f)),
        decreases known@.len() - i,
    {
        let f = &known[i];
        let line = "- ".to_owned().concat(&f.fingerprint).concat(" [").concat(
            f.status.as_str(),
        ).concat("] -- ").concat(&f.summary);
        text::add_text(&mut lines, &line);
        assert(text::texts(lines@) =~= known@.take(i + 1).map_values(|f: Finding| known_line(f)));
        i = i + 1;
    }
    assert(known@.take(known@.len() as int) =~= known@);
    text::join_texts(&lines, "\n")
}

/// The notes of a repository, or what stands for them where there are none.
pub fn notes_or_default(repo_notes: &str, default: &str) -> (r: String)
    ensures
        r@ == notes_text(repo_notes@, default@),
{
    if repo_notes.is_empty() {
        default.to_owned()
    } else {
        repo_notes.to_owned()
    }
}

pub open spec fn notes_text(notes: Seq<char>, default: Seq<char>) -> Seq<char> {
    if notes.len() == 0 { default } else { notes }
}

// ---------------------------------------------------------------------
// Feedback
// ---------------------------------------------------------------------

/// One remark on a pull request.
pub struct Remark {
    pub at: String,
    pub who: String,
    pub body: String,
}

pub struct RemarkView {
    pub at: Seq<char>,
    pub who: Seq<char>,
    pub body: Seq<char>,
}

impl View for Remark {
    type V = RemarkView;

    open spec fn view(&self) -> RemarkView {
        RemarkView { at: self.at@, who: self.who@, body: self.body@ }
    }
}

pub open spec fn remarks(v: Seq<Remark>) -> Seq<RemarkView> {
    v.map_values(|x: Remark| x@)
}

pub open spec fn login(a: Option<GhAuthor>) -> Seq<char> {
    match a {
        Some(x) => x.login@,
        None => "?"@,
    }
}

fn login_of(a: &Option<GhAuthor>) -> (r: String)
    ensures
        r@ == login(*a),
{
    match a {
        Some(x) => x.login.clone(),
        None => "?".to_owned(),
    }
}

pub open spec fn comment_remark(c: GhComment) -> RemarkView {
    RemarkView { at: c.created_at@, who: login(c.author), body: text::trim(c.body@, Cut::White) }
}

/// What a review says: a state other than a mere comment stands before it.
pub open spec fn review_body(r: GhReview) -> Seq<char> {
    let raw = text::trim(r.body@, Cut::White);
    if r.state@.len() > 0 && r.state@ != "COMMENTED"@ {
        text::trim("[review: "@ + r.state@ + "] "@ + raw, Cut::White)
    } else {
        raw
    }
}

/// The reviews that say something.
pub open spec fn review_remarks(v: Seq<GhReview>) -> Seq<RemarkView>
    decreases v.len(),
{
    if v.len() == 0 {
        Seq::empty()
    } else {
        let r = v.last();
        let before = review_remarks(v.drop_last());
        if review_body(r).len() > 0 {
            before.push(RemarkView { at: r.submitted_at@, who: login(r.author), body: review_body(r) })
        } else {
            before
        }
    }
}

/// Everything that was said: the comments, and the reviews.
pub open spec fn said(pr: PrView) -> Seq<RemarkView> {
    pr.comments@.map_values(|c: GhComment| comment_remark(c)) + review_remarks(pr.reviews@)
}

/// Earlier, or at the same time by an earlier name, or by the same with an
/// earlier text.
pub open spec fn remark_lt(a: RemarkView, b: RemarkView) -> bool {
    ||| text::lex_lt(a.at, b.at)
    ||| a.at == b.at && text::lex_lt(a.who, b.who)
    ||| a.at == b.at && a.who == b.who && text::lex_lt(a.body, b.body)
}

fn remark_less(a: &Remark, b: &Remark) -> (r: bool)
    ensures
        r == remark_lt(a@, b@),
{
    text::less(&a.at, &b.at) || (text::same(&a.at, &b.at) && (text::less(&a.who, &b.who) || (
    text::same(&a.who, &b.who) && text::less(&a.body, &b.body))))
}

/// A remark put into a list in order.
pub open spec fn insert_remark(v: Seq<RemarkView>, x: RemarkView) -> Seq<RemarkView>
    decreases v.len(),
{
    if v.len() > 0 && remark_lt(x, v.last()) {
        insert_remark(v.drop_last(), x).push(v.last())
    } else {
        v.push(x)
    }
}

/// The remarks in order.
pub open spec fn in_order(v: Seq<RemarkView>) -> Seq<RemarkView>
    decreases v.len(),
{
    if v.len() == 0 {
        Seq::empty()
    } else {
        insert_remark(in_order(v.drop_last()), v.last())
    }
}

proof fn lemma_insert_at(v: Seq<RemarkView>, x: RemarkView, p: int)
    requires
        0 <= p <= v.len(),
        forall|k: int| p <= k < v.len() ==> remark_lt(x, #[trigger] v[k]),
        p > 0 ==> !remark_lt(x, v[p - 1]),
    ensures
        insert_remark(v, x) == v.insert(p, x),
    decreases v.len(),
{
    if p < v.len() {
        assert(remark_lt(x, v[v.len() - 1]));
        lemma_insert_at(v.drop_last(), x, p);
        assert(insert_remark(v, x) =~= v.insert(p, x));
    } else {
        assert(v.push(x) =~= v.insert(p, x));
    }
}

fn add_remark(v: &mut Vec<Remark>, x: Remark)
    ensures
        remarks(final(v)@) == insert_remark(remarks(old(v)@), x@),
{
    let ghost all = remarks(v@);
    let mut p: usize = v.len();
    while p > 0 && remark_less(&x, &v[p - 1])
        invariant
            *v == *old(v),
            p <= v@.len(),
            all == remarks(v@),
            forall|k: int| p <= k < all.len() ==> remark_lt(x@, #[trigger] all[k]),
        decreases p,
    {
        p = p - 1;
    }
    proof {
        if p > 0 {
            assert(all[p - 1] == v@[p - 1]@);
        }
        lemma_insert_at(all, x@, p as int);
    }
    v.insert(p, x);
    assert(remarks(v@) =~= all.insert(p as int, x@));
}

fn collect_remarks(pr: &PrView) -> (r: Vec<Remark>)
    ensures
        remarks(r@) == in_order(said(*pr)),
{
    let ghost comments = pr.comments@.map_values(|c: GhComment| comment_remark(c));
    let mut out: Vec<Remark> = Vec::new();
    let mut i: usize = 0;
    assert(remarks(out@) =~= in_order(comments.take(0)));
    while i < pr.comments.len()
        invariant
            i <= pr.comments@.len(),
            comments == pr.comments@.map_values(|c: GhComment| comment_remark(c)),
            remarks(out@) == in_order(comments.take(i as int)),
        decreases pr.comments@.len() - i,
    {
        let c = &pr.comments[i];
        proof {
            assert(comments.take(i + 1).drop_last() =~= comments.take(i as int));
        }
        add_remark(
            &mut out,
            Remark {
                at: c.created_at.clone(),
                who: login_of(&c.author),
                body: text::trim_text(&c.body, Cut::White),
            },
        );
        i = i + 1;
    }
    let ghost all = pr.reviews@;
    let mut k: usize = 0;
    proof {
        assert(comments.take(comments.len() as int) =~= comments);
        assert(comments + review_remarks(all.take(0)) =~= comments);
    }
    while k < pr.reviews.len()
        invariant
            k <= pr.reviews@.len(),
            all == pr.reviews@,
            remarks(out@) == in_order(comments + review_remarks(all.take(k as int))),
        decreases pr.reviews@.len() - k,
    {
        let r = &pr.reviews[k];
        let raw = text::trim_text(&r.body, Cut::White);
        let body: String = if !r.state.as_str().is_empty() && !text::same(&r.state, "COMMENTED") {
            let full = "[review: ".to_owned().concat(&r.state).concat("] ").concat(&raw);
            text::trim_text(&full, Cut::White)
        } else {
            raw
        };
        proof {
            assert(all.take(k + 1).drop_last() =~= all.take(k as int));
            assert(all.take(k + 1).last() == *r);
            assert(body@ == review_body(*r));
        }
        if !body.as_str().is_empty() {
            proof {
                let before = comments + review_remarks(all.take(k as int));
                let x = RemarkView { at: r.submitted_at@, who: login(r.author), body: body@ };
                assert(comments + review_remarks(all.take(k + 1)) =~= before.push(x));
                assert(before.push(x).drop_last() =~= before);
            }
            add_remark(
                &mut out,
                Remark { at: r.submitted_at.clone(), who: login_of(&r.author), body },
            );
        }
        k = k + 1;
    }
    assert(all.take(all.len() as int) =~= all);
    out
}

pub open spec fn remark_block(x: RemarkView) -> Seq<char> {
    "### "@ + x.who + " at "@ + x.at + "\n"@ + x.body
}

/// The bytes that blocks take up, with the blank line after each.
pub open spec fn weight(v: Seq<Seq<char>>) -> int
    decreases v.len(),
{
    if v.len() == 0 {
        0
    } else {
        weight(v.drop_last()) + encode_utf8(v.last()).len() + 2
    }
}

/// How many of the oldest blocks are dropped to keep within `cap` bytes; the
/// newest stays in any case.
pub open spec fn surplus(v: Seq<Seq<char>>, cap: int) -> nat
    decreases v.len(),
{
    if v.len() > 1 && weight(v) > cap { 1 + surplus(v.skip(1), cap) } else { 0 }
}

/// Blocks within `cap` bytes, with a note of how many are left out.
pub open spec fn within(v: Seq<Seq<char>>, cap: int) -> Seq<Seq<char>> {
    let n = surplus(v, cap);
    if n > 0 {
        seq!["("@ + text::nat_text(n) + " older item(s) elided)"@] + v.skip(n as int)
    } else {
        v
    }
}

/// What was said of a pull request, oldest first, within `cap` bytes.
pub open spec fn feedback(pr: PrView, cap: int) -> Seq<char> {
    let blocks = in_order(said(pr)).map_values(|x: RemarkView| remark_block(x));
    if blocks.len() == 0 {
        "(no comments or reviews)"@
    } else {
        text::join(within(blocks, cap), "\n\n"@)
    }
}

fn weight_of(v: &Vec<String>, from: usize) -> (r: u128)
    requires
        from <= v@.len(),
    ensures
        r == weight(text::texts(v@).skip(from as int)),
{
    let ghost all = text::texts(v@).skip(from as int);
    let mut sum: u128 = 0;
    let mut i: usize = from;
    while i < v.len()
        invariant
            from <= i <= v@.len(),
            all == text::texts(v@).skip(from as int),
            sum == weight(all.take(i - from)),
            sum <= (i - from) * 0x1_0000_0000_0000_0001,
        decreases v@.len() - i,
    {
        proof {
            assert(all.take(i + 1 - from).drop_last() =~= all.take(i - from));
            assert(all.take(i + 1 - from).last() == v@[i as int]@);
            assert((i - from) * 0x1_0000_0000_0000_0001 + 0x1_0000_0000_0000_0001 == (i + 1 - from)
                * 0x1_0000_0000_0000_0001);
            assert((i + 1 - from) * 0x1_0000_0000_0000_0001 <= 0x1_0000_0000_0000_0000
                * 0x1_0000_0000_0000_0001) by (nonlinear_arith)
                requires
                    i + 1 - from <= 0x1_0000_0000_0000_0000,
            ;
        }
        let n: usize = v[i].as_str().as_bytes().len();
        sum = sum + (n as u128 + 2);
        i = i + 1;
    }
    assert(all.take(all.len() as int) =~= all);
    sum
}

/// What was said of a pull request, oldest first; the oldest is left out past
/// `cap` bytes.
pub fn feedback_blocks(pr: &PrView, cap: usize) -> (r: String)
    ensures
        r@ == feedback(*pr, cap as int),
{
    let items = collect_remarks(pr);
    let ghost sorted = in_order(said(*pr));
    let mut blocks = text::no_texts();
    let mut i: usize = 0;
    while i < items.len()
        invariant
            i <= items@.len(),
            remarks(items@) == sorted,
            text::texts(blocks@) == sorted.take(i as int).map_values(|x: RemarkView| remark_block(x)),
        decreases items@.len() - i,
    {
        let x = &items[i];
        assert(sorted[i as int] == x@);
        let block = "### ".to_owned().concat(&x.who).concat(" at ").concat(&x.at).concat("\n").concat(
            &x.body,
        );
        text::add_text(&mut blocks, &block);
        assert(text::texts(blocks@) =~= sorted.take(i + 1).map_values(
            |x: RemarkView| remark_block(x),
        ));
        i = i + 1;
    }
    let ghost all = text::texts(blocks@);
    proof {
        assert(sorted.take(sorted.len() as int) =~= sorted);
    }
    if blocks.len() == 0 {
        return "(no comments or reviews)".to_owned();
    }
    let mut from: usize = 0;
    assert(all.skip(0) =~= all);
    while blocks.len() - from > 1 && weight_of(&blocks, from) > cap as u128
        invariant
            all == text::texts(blocks@),
            from < blocks@.len(),
            surplus(all, cap as int) == from + surplus(all.skip(from as int), cap as int),
        decreases blocks@.len() - from,
    {
        assert(all.skip(from as int).skip(1) =~= all.skip(from + 1));
        from = from + 1;
    }
    if from == 0 {
        return text::join_texts(&blocks, "\n\n");
    }
    let mut out = text::no_texts();
    let note = "(".to_owned().concat(text::count_to_text(from).as_str()).concat(
        " older item(s) elided)",
    );
    text::add_text(&mut out, &note);
    let mut k: usize = from;
    while k < blocks.len()
        invariant
            from <= k <= blocks@.len(),
            all == text::texts(blocks@),
            text::texts(out@) == seq![note@] + all.subrange(from as int, k as int),
        decreases blocks@.len() - k,
    {
        text::add_text(&mut out, &blocks[k]);
        assert(text::texts(out@) =~= seq![note@] + all.subrange(from as int, k + 1));
        k = k + 1;
    }
    assert(all.subrange(from as int, all.len() as int) =~= all.skip(from as int));
    text::join_texts(&out, "\n\n")
}

pub open spec fn check_line(c: GhCheckRun) -> Seq<char> {
    "- "@ + (match c.name {
        Some(n) => n@,
        None => match c.context {
            Some(n) => n@,
            None => "?"@,
        },
    }) + ": "@ + match c.conclusion {
        Some(n) => n@,
        None => match c.state {
            Some(n) => n@,
            None => "PENDING"@,
        },
    }
}

/// The first thirty checks of a pull request.
pub open spec fn checks_text(pr: PrView) -> Seq<char> {
    let v = pr.status_check_rollup@;
    if v.len() == 0 {
        "(no checks reported)"@
    } else {
        text::join(
            v.take(util::min_int(30, v.len() as int)).map_values(|c: GhCheckRun| check_line(c)),
            "\n"@,
        )
    }
}

pub fn checks_lines(pr: &PrView) -> (r: String)
    ensures
        r@ == checks_text(*pr),
{
    let v = &pr.status_check_rollup;
    if v.len() == 0 {
        return "(no checks reported)".to_owned();
    }
    let mut lines = text::no_texts();
    let n: usize = if v.len() < 30 {
        v.len()
    } else {
        30
    };
    let mut i: usize = 0;
    while i < n
        invariant
            i <= n <= v@.len(),
            text::texts(lines@) == v@.take(i as int).map_values(|c: GhCheckRun| check_line(c)),
        decreases n - i,
    {
        let c = &v[i];
        let name: &str = match &c.name {
            Some(s) => s.as_str(),
            None => match &c.context {
                Some(s) => s.as_str(),
                None => "?",
            },
        };
        let state: &str = match &c.conclusion {
            Some(s) => s.as_str(),
            None => match &c.state {
                Some(s) => s.as_str(),
                None => "PENDING",
            },
        };
        let line = "- ".to_owned().concat(name).concat(": ").concat(state);
        text::add_text(&mut lines, &line);
        assert(text::texts(lines@) =~= v@.take(i + 1).map_values(|c: GhCheckRun| check_line(c)));
        i = i + 1;
    }
    text::join_texts(&lines, "\n")
}

// ---------------------------------------------------------------------
// The finding in a prompt
// ---------------------------------------------------------------------

/// The value of a field that a prompt shows.
#[derive(Debug, Clone)]
pub enum FieldValue {
    Text { value: String },
    Number { value: i64 },
}

pub enum FieldValueView {
    Text { value: Seq<char> },
    Number { value: i64 },
}

impl View for FieldValue {
    type V = FieldValueView;

    open spec fn view(&self) -> FieldValueView {
        match *self {
            FieldValue::Text { value } => FieldValueView::Text { value: value@ },
            FieldValue::Number { value } => FieldValueView::Number { value },
        }
    }
}

pub open spec fn fields_view(v: Seq<(String, FieldValue)>) -> Seq<(Seq<char>, FieldValueView)> {
    v.map_values(|p: (String, FieldValue)| (p.0@, p.1@))
}

pub open spec fn text_shown(name: Seq<char>, v: Option<Seq<char>>) -> Seq<(Seq<char>, FieldValueView)> {
    match v {
        Some(value) => seq![(name, FieldValueView::Text { value })],
        None => Seq::empty(),
    }
}

pub open spec fn number_shown(name: Seq<char>, v: Option<i64>) -> Seq<(Seq<char>, FieldValueView)> {
    match v {
        Some(value) => seq![(name, FieldValueView::Number { value })],
        None => Seq::empty(),
    }
}

fn show_text(out: &mut Vec<(String, FieldValue)>, name: &str, v: Option<String>)
    ensures
        fields_view(final(out)@) == fields_view(old(out)@) + text_shown(name@, text::opt_text(v)),
{
    if let Some(value) = v {
        out.push((name.to_owned(), FieldValue::Text { value }));
    }
    assert(fields_view(out@) =~= fields_view(old(out)@) + text_shown(name@, text::opt_text(v)));
}

fn show_number(out: &mut Vec<(String, FieldValue)>, name: &str, v: Option<i64>)
    ensures
        fields_view(final(out)@) == fields_view(old(out)@) + number_shown(name@, v),
{
    if let Some(value) = v {
        out.push((name.to_owned(), FieldValue::Number { value }));
    }
    assert(fields_view(out@) =~= fields_view(old(out)@) + number_shown(name@, v));
}

pub open spec fn class_text(f: Finding) -> Option<Seq<char>> {
    match f.bug_class {
        Some(b) => Some(b.text()),
        None => None,
    }
}

/// The fields of a finding that a prompt shows, all but its confidence; a
/// field without a value is left out.
pub open spec fn shown_fields(f: Finding) -> Seq<(Seq<char>, FieldValueView)> {
    text_shown("type"@, Some(f.kind.text()))
        + text_shown("fingerprint"@, Some(f.fingerprint@))
        + text_shown("file"@, text::opt_text(f.file))
        + text_shown("symbol"@, text::opt_text(f.symbol))
        + number_shown("line"@, f.line)
        + text_shown("bug_class"@, class_text(f))
        + text_shown("severity"@, Some(f.severity.text()))
        + text_shown("summary"@, Some(f.summary@))
        + text_shown("detail"@, text::opt_text(f.detail))
        + text_shown("evidence_plan"@, text::opt_text(f.evidence_plan))
        + text_shown("introduced_by"@, text::opt_text(f.introduced_by))
        + text_shown("ecosystem"@, text::opt_text(f.ecosystem))
        + text_shown("package"@, text::opt_text(f.package))
        + text_shown("current_version"@, text::opt_text(f.current_version))
        + text_shown("latest_version"@, text::opt_text(f.latest_version))
        + text_shown("update_type"@, text::opt_text(f.update_type))
        + text_shown("security_advisory"@, text::opt_text(f.security_advisory))
        + text_shown("missing_tests"@, text::opt_text(f.missing_tests))
        + text_shown("test_file"@, text::opt_text(f.test_file))
        + text_shown("smell_type"@, text::opt_text(f.smell_type))
        + text_shown("suggested_refactor"@, text::opt_text(f.suggested_refactor))
        + text_shown("modernization_class"@, text::opt_text(f.modernization_class))
        + text_shown("current_approach"@, text::opt_text(f.current_approach))
        + text_shown("proposed_approach"@, text::opt_text(f.proposed_approach))
}

/// The fields of a finding that a prompt shows, all but its confidence.
pub fn finding_subset(f: &Finding) -> (r: Vec<(String, FieldValue)>)
    ensures
        fields_view(r@) == shown_fields(*f),
{
    let mut out: Vec<(String, FieldValue)> = Vec::new();
    let class: Option<String> = match f.bug_class {
        Some(b) => Some(b.as_str().to_owned()),
        None => None,
    };
    show_text(&mut out, "type", Some(f.kind.as_str().to_owned()));
    show_text(&mut out, "fingerprint", Some(f.fingerprint.clone()));
    show_text(&mut out, "file", text::copy_opt(&f.file));
    show_text(&mut out, "symbol", text::copy_opt(&f.symbol));
    show_number(&mut out, "line", f.line);
    show_text(&mut out, "bug_class", class);
    show_text(&mut out, "severity", Some(f.severity.as_str().to_owned()));
    show_text(&mut out, "summary", Some(f.summary.clone()));
    show_text(&mut out, "detail", text::copy_opt(&f.detail));
    show_text(&mut out, "evidence_plan", text::copy_opt(&f.evidence_plan));
    show_text(&mut out, "introduced_by", text::copy_opt(&f.introduced_by));
    show_text(&mut out, "ecosystem", text::copy_opt(&f.ecosystem));
    show_text(&mut out, "package", text::copy_opt(&f.package));
    show_text(&mut out, "current_version", text::copy_opt(&f.current_version));
    show_text(&mut out, "latest_version", text::copy_opt(&f.latest_version));
    show_text(&mut out, "update_type", text::copy_opt(&f.update_type));
    show_text(&mut out, "security_advisory", text::copy_opt(&f.security_advisory));
    show_text(&mut out, "missing_tests", text::copy_opt(&f.missing_tests));
    show_text(&mut out, "test_file", text::copy_opt(&f.test_file));
    show_text(&mut out, "smell_type", text::copy_opt(&f.smell_type));
    show_text(&mut out, "suggested_refactor", text::copy_opt(&f.suggested_refactor));
    show_text(&mut out, "modernization_class", text::copy_opt(&f.modernization_class));
    show_text(&mut out, "current_approach", text::copy_opt(&f.current_approach));
    show_text(&mut out, "proposed_approach", text::copy_opt(&f.proposed_approach));
    assert(fields_view(out@) =~= shown_fields(*f));
    out
}

// ---------------------------------------------------------------------
// The prompts
// ---------------------------------------------------------------------

/// The slots of a hunt. The repository's path is that of the tree that the
/// worker runs in.
pub open spec fn hunt_slots(repo: Repo, tree: Seq<char>, diff_range: Seq<char>, scope_note: Seq<char>, suppressions: Seq<Finding>, known: Seq<Finding>, out_path: Seq<char>, max_findings: i64, repo_notes: Seq<char>) -> Map<Seq<char>, Seq<char>> {
    map![
        "REPO_PATH"@ => tree,
        "REPO_NAME"@ => repo.name@,
        "DIFF_RANGE"@ => diff_range,
        "SCOPE_NOTE"@ => scope_note,
        "SUPPRESSIONS"@ => suppressions_text(suppressions),
        "KNOWN_FINDINGS"@ => known_text(known),
        "OUT_PATH"@ => out_path,
        "MAX_FINDINGS"@ => text::int_text(max_findings as int),
        "REPO_NOTES"@ => notes_text(repo_notes, "(No notes yet \u{2014} consider adding conventions/architecture/gotchas as you discover them)"@),
    ]
}

pub fn build_hunt_prompt(template: &str, repo: &Repo, tree: &str, diff_range: &str, scope_note: &str, suppressions: &Vec<Finding>, known: &Vec<Finding>, out_path: &str, max_findings: i64, repo_notes: &str) -> (r: Result<String, String>)
    ensures
        outcome(r) == rendered(template@, hunt_slots(*repo, tree@, diff_range@, scope_note@, suppressions@, known@, out_path@, max_findings, repo_notes@)),
{
    let mut slots = Slots::new();
    slots.put("REPO_PATH", tree);
    slots.put("REPO_NAME", &repo.name);
    slots.put("DIFF_RANGE", diff_range);
    slots.put("SCOPE_NOTE", scope_note);
    slots.put("SUPPRESSIONS", &suppressions_block(suppressions));
    slots.put("KNOWN_FINDINGS", &known_block(known));
    slots.put("OUT_PATH", out_path);
    slots.put("MAX_FINDINGS", text::int_to_text(max_findings).as_str());
    slots.put("REPO_NOTES", &notes_or_default(repo_notes, "(No notes yet \u{2014} consider adding conventions/architecture/gotchas as you discover them)"));
    render(template, &slots)
}

/// The playbook of a scan.
pub open spec fn scan_playbook(kind: RepoJobKind) -> Seq<char> {
    match kind {
        RepoJobKind::Hunt => "hunt.md"@,
        RepoJobKind::TestGap => "test_gap.md"@,
        RepoJobKind::DepUpdate => "dep_update.md"@,
        RepoJobKind::Refactor => "refactor.md"@,
        RepoJobKind::Modernization => "modernization.md"@,
        RepoJobKind::Standards => "standards.md"@,
    }
}

pub fn scan_template(kind: RepoJobKind) -> (r: &'static str)
    ensures
        r@ == scan_playbook(kind),
{
    match kind {
        RepoJobKind::Hunt => "hunt.md",
        RepoJobKind::TestGap => "test_gap.md",
        RepoJobKind::DepUpdate => "dep_update.md",
        RepoJobKind::Refactor => "refactor.md",
        RepoJobKind::Modernization => "modernization.md",
        RepoJobKind::Standards => "standards.md",
    }
}

/// The playbook of work on a finding; a fix has one by what is fixed.
pub open spec fn finding_playbook(kind: FindingJobKind, what: FindingType) -> Seq<char> {
    match kind {
        FindingJobKind::Fix => match what {
            FindingType::Bug => "fix.md"@,
            FindingType::Modernization => "apply_modernization.md"@,
            _ => "apply_improvement.md"@,
        },
        FindingJobKind::Engage => "engage.md"@,
        FindingJobKind::Harvest => "harvest.md"@,
        FindingJobKind::Recheck => "recheck.md"@,
    }
}

pub fn finding_template(kind: FindingJobKind, what: FindingType) -> (r: &'static str)
    ensures
        r@ == finding_playbook(kind, what),
{
    match kind {
        FindingJobKind::Fix => match what {
            FindingType::Bug => "fix.md",
            FindingType::Modernization => "apply_modernization.md",
            _ => "apply_improvement.md",
        },
        FindingJobKind::Engage => "engage.md",
        FindingJobKind::Harvest => "harvest.md",
        FindingJobKind::Recheck => "recheck.md",
    }
}

/// The slots of a fix.
pub open spec fn fix_slots(finding_json: Seq<char>, worktree: Seq<char>, branch: Seq<char>, repo: Repo, repo_notes: Seq<char>) -> Map<Seq<char>, Seq<char>> {
    map![
        "WORKTREE"@ => worktree,
        "BRANCH"@ => branch,
        "FINDING_JSON"@ => finding_json,
        "REPO_NAME"@ => repo.name@,
        "REPO_NOTES"@ => notes_text(repo_notes, "(No notes yet)"@),
    ]
}

pub fn build_fix_prompt(template: &str, finding_json: &str, worktree: &str, branch: &str, repo: &Repo, repo_notes: &str) -> (r: Result<String, String>)
    ensures
        outcome(r) == rendered(template@, fix_slots(finding_json@, worktree@, branch@, *repo, repo_notes@)),
{
    let mut slots = Slots::new();
    slots.put("WORKTREE", worktree);
    slots.put("BRANCH", branch);
    slots.put("FINDING_JSON", finding_json);
    slots.put("REPO_NAME", &repo.name);
    slots.put("REPO_NOTES", &notes_or_default(repo_notes, "(No notes yet)"));
    render(template, &slots)
}

/// Apply an improvement: the slots are those of a fix.
pub fn build_apply_improvement_prompt(
    template: &str,
    finding_json: &str,
    worktree: &str,
    branch: &str,
    repo: &Repo,
    repo_notes: &str,
) -> (r: Result<String, String>)
    ensures
        outcome(r) == rendered(
            template@,
            fix_slots(finding_json@, worktree@, branch@, *repo, repo_notes@),
        ),
{
    build_fix_prompt(template, finding_json, worktree, branch, repo, repo_notes)
}

/// Apply a modernization: the slots are those of a fix.
pub fn build_apply_modernization_prompt(
    template: &str,
    finding_json: &str,
    worktree: &str,
    branch: &str,
    repo: &Repo,
    repo_notes: &str,
) -> (r: Result<String, String>)
    ensures
        outcome(r) == rendered(
            template@,
            fix_slots(finding_json@, worktree@, branch@, *repo, repo_notes@),
        ),
{
    build_fix_prompt(template, finding_json, worktree, branch, repo, repo_notes)
}

/// Work on a finding, by what it is of; the slots are those of a fix.
pub fn build_finding_prompt(
    kind: FindingType,
    template: &str,
    finding_json: &str,
    worktree: &str,
    branch: &str,
    repo: &Repo,
    repo_notes: &str,
) -> (r: Result<String, String>)
    ensures
        outcome(r) == rendered(
            template@,
            fix_slots(finding_json@, worktree@, branch@, *repo, repo_notes@),
        ),
{
    match kind {
        FindingType::Bug => build_fix_prompt(
            template,
            finding_json,
            worktree,
            branch,
            repo,
            repo_notes,
        ),
        FindingType::Modernization => build_apply_modernization_prompt(
            template,
            finding_json,
            worktree,
            branch,
            repo,
            repo_notes,
        ),
        _ => build_apply_improvement_prompt(
            template,
            finding_json,
            worktree,
            branch,
            repo,
            repo_notes,
        ),
    }
}

pub open spec fn described(body: Seq<char>) -> Seq<char> {
    if body.len() == 0 { "(no description)"@ } else { body }
}

fn description(body: &str) -> (r: String)
    ensures
        r@ == described(body@),
{
    if body.is_empty() {
        "(no description)".to_owned()
    } else {
        body.to_owned()
    }
}

pub open spec fn attention(ps: PrState) -> Seq<char> {
    match ps.needs_attention {
        Some(s) => s@,
        None => "(none recorded)"@,
    }
}

fn attention_of(ps: &PrState) -> (r: String)
    ensures
        r@ == attention(*ps),
{
    match &ps.needs_attention {
        Some(s) => s.clone(),
        None => "(none recorded)".to_owned(),
    }
}

/// The slots of an engagement with a pull request.
pub open spec fn engage_slots(worktree: Seq<char>, branch: Seq<char>, repo: Repo, pr: PrView, ps: PrState, repo_notes: Seq<char>) -> Map<Seq<char>, Seq<char>> {
    map![
        "WORKTREE"@ => worktree,
        "BRANCH"@ => branch,
        "REPO_NAME"@ => repo.name@,
        "DEFAULT_BRANCH"@ => repo.default_branch@,
        "PR_TITLE"@ => pr.title@,
        "PR_BODY"@ => described(pr.body@),
        "FEEDBACK"@ => feedback(pr, 8000),
        "CHECKS"@ => checks_text(pr),
        "ATTENTION"@ => attention(ps),
        "REPO_NOTES"@ => notes_text(repo_notes, "(No notes yet)"@),
    ]
}

pub fn build_engage_prompt(template: &str, worktree: &str, branch: &str, repo: &Repo, pr: &PrView, ps: &PrState, repo_notes: &str) -> (r: Result<String, String>)
    ensures
        outcome(r) == rendered(template@, engage_slots(worktree@, branch@, *repo, *pr, *ps, repo_notes@)),
{
    let mut slots = Slots::new();
    slots.put("WORKTREE", worktree);
    slots.put("BRANCH", branch);
    slots.put("REPO_NAME", &repo.name);
    slots.put("DEFAULT_BRANCH", &repo.default_branch);
    slots.put("PR_TITLE", &pr.title);
    slots.put("PR_BODY", &description(&pr.body));
    slots.put("FEEDBACK", &feedback_blocks(pr, 8000));
    slots.put("CHECKS", &checks_lines(pr));
    slots.put("ATTENTION", &attention_of(ps));
    slots.put("REPO_NOTES", &notes_or_default(repo_notes, "(No notes yet)"));
    render(template, &slots)
}

/// The slots of the look at a merged pull request.
pub open spec fn harvest_slots(finding_json: Seq<char>, worktree: Seq<char>, repo: Repo, pr: PrView, pr_number: i64, repo_notes: Seq<char>) -> Map<Seq<char>, Seq<char>> {
    map![
        "WORKTREE"@ => worktree,
        "REPO_NAME"@ => repo.name@,
        "DEFAULT_BRANCH"@ => repo.default_branch@,
        "FINDING_JSON"@ => finding_json,
        "PR_NUMBER"@ => text::int_text(pr_number as int),
        "PR_TITLE"@ => pr.title@,
        "PR_BODY"@ => described(pr.body@),
        "FEEDBACK"@ => feedback(pr, 8000),
        "REPO_NOTES"@ => notes_text(repo_notes, "(No notes yet)"@),
    ]
}

pub fn build_harvest_prompt(template: &str, finding_json: &str, worktree: &str, repo: &Repo, pr: &PrView, pr_number: i64, repo_notes: &str) -> (r: Result<String, String>)
    ensures
        outcome(r) == rendered(template@, harvest_slots(finding_json@, worktree@, *repo, *pr, pr_number, repo_notes@)),
{
    let mut slots = Slots::new();
    slots.put("WORKTREE", worktree);
    slots.put("REPO_NAME", &repo.name);
    slots.put("DEFAULT_BRANCH", &repo.default_branch);
    slots.put("FINDING_JSON", finding_json);
    slots.put("PR_NUMBER", text::int_to_text(pr_number).as_str());
    slots.put("PR_TITLE", &pr.title);
    slots.put("PR_BODY", &description(&pr.body));
    slots.put("FEEDBACK", &feedback_blocks(pr, 8000));
    slots.put("REPO_NOTES", &notes_or_default(repo_notes, "(No notes yet)"));
    render(template, &slots)
}

/// The slots of a recheck.
pub open spec fn recheck_slots(finding_json: Seq<char>, repo: Repo, tree: Seq<char>, out_path: Seq<char>, repo_notes: Seq<char>) -> Map<Seq<char>, Seq<char>> {
    map![
        "REPO_PATH"@ => tree,
        "REPO_NAME"@ => repo.name@,
        "FINDING_JSON"@ => finding_json,
        "OUT_PATH"@ => out_path,
        "REPO_NOTES"@ => notes_text(repo_notes, "(No notes yet)"@),
    ]
}

pub fn build_recheck_prompt(template: &str, finding_json: &str, repo: &Repo, tree: &str, out_path: &str, repo_notes: &str) -> (r: Result<String, String>)
    ensures
        outcome(r) == rendered(template@, recheck_slots(finding_json@, *repo, tree@, out_path@, repo_notes@)),
{
    let mut slots = Slots::new();
    slots.put("REPO_PATH", tree);
    slots.put("REPO_NAME", &repo.name);
    slots.put("FINDING_JSON", finding_json);
    slots.put("OUT_PATH", out_path);
    slots.put("REPO_NOTES", &notes_or_default(repo_notes, "(No notes yet)"));
    render(template, &slots)
}

/// The slots of an analysis, which names the slots of its known findings and
/// of its limit itself.
pub open spec fn analysis_slots(
    repo: Repo,
    tree: Seq<char>,
    scope_note: Seq<char>,
    suppressions: Seq<Finding>,
    known: Seq<Finding>,
    out_path: Seq<char>,
    max_items: i64,
    repo_notes: Seq<char>,
    known_slot: Seq<char>,
    max_slot: Seq<char>,
) -> Map<Seq<char>, Seq<char>> {
    map![
        "REPO_PATH"@ => tree,
        "REPO_NAME"@ => repo.name@,
        "SCOPE_NOTE"@ => scope_note,
        "SUPPRESSIONS"@ => suppressions_text(suppressions),
        known_slot => known_text(known),
        "OUT_PATH"@ => out_path,
        max_slot => text::int_text(max_items as int),
        "REPO_NOTES"@ => notes_text(repo_notes, "(No notes yet)"@),
    ]
}

fn build_analysis_prompt(
    template: &str,
    repo: &Repo,
    tree: &str,
    scope_note: &str,
    suppressions: &Vec<Finding>,
    known: &Vec<Finding>,
    out_path: &str,
    max_items: i64,
    repo_notes: &str,
    known_slot: &str,
    max_slot: &str,
) -> (r: Result<String, String>)
    ensures
        outcome(r) == rendered(
            template@,
            analysis_slots(
                *repo,
                tree@,
                scope_note@,
                suppressions@,
                known@,
                out_path@,
                max_items,
                repo_notes@,
                known_slot@,
                max_slot@,
            ),
        ),
{
    let mut slots = Slots::new();
    slots.put("REPO_PATH", tree);
    slots.put("REPO_NAME", &repo.name);
    slots.put("SCOPE_NOTE", scope_note);
    slots.put("SUPPRESSIONS", &suppressions_block(suppressions));
    slots.put(known_slot, &known_block(known));
    slots.put("OUT_PATH", out_path);
    slots.put(max_slot, text::int_to_text(max_items).as_str());
    slots.put("REPO_NOTES", &notes_or_default(repo_notes, "(No notes yet)"));
    render(template, &slots)
}

pub fn build_test_gap_prompt(
    template: &str,
    repo: &Repo,
    tree: &str,
    scope_note: &str,
    suppressions: &Vec<Finding>,
    known: &Vec<Finding>,
    out_path: &str,
    max_findings: i64,
    repo_notes: &str,
) -> (r: Result<String, String>)
    ensures
        outcome(r) == rendered(
            template@,
            analysis_slots(
                *repo,
                tree@,
                scope_note@,
                suppressions@,
                known@,
                out_path@,
                max_findings,
                repo_notes@,
                "KNOWN_GAPS"@,
                "MAX_GAPS"@,
            ),
        ),
{
    build_analysis_prompt(
        template,
        repo,
        tree,
        scope_note,
        suppressions,
        known,
        out_path,
        max_findings,
        repo_notes,
        "KNOWN_GAPS",
        "MAX_GAPS",
    )
}

pub fn build_dep_update_prompt(
    template: &str,
    repo: &Repo,
    tree: &str,
    scope_note: &str,
    suppressions: &Vec<Finding>,
    known: &Vec<Finding>,
    out_path: &str,
    max_findings: i64,
    repo_notes: &str,
) -> (r: Result<String, String>)
    ensures
        outcome(r) == rendered(
            template@,
            analysis_slots(
                *repo,
                tree@,
                scope_note@,
                suppressions@,
                known@,
                out_path@,
                max_findings,
                repo_notes@,
                "KNOWN_UPDATES"@,
                "MAX_UPDATES"@,
            ),
        ),
{
    build_analysis_prompt(
        template,
        repo,
        tree,
        scope_note,
        suppressions,
        known,
        out_path,
        max_findings,
        repo_notes,
        "KNOWN_UPDATES",
        "MAX_UPDATES",
    )
}

pub fn build_refactor_prompt(
    template: &str,
    repo: &Repo,
    tree: &str,
    scope_note: &str,
    suppressions: &Vec<Finding>,
    known: &Vec<Finding>,
    out_path: &str,
    max_findings: i64,
    repo_notes: &str,
) -> (r: Result<String, String>)
    ensures
        outcome(r) == rendered(
            template@,
            analysis_slots(
                *repo,
                tree@,
                scope_note@,
                suppressions@,
                known@,
                out_path@,
                max_findings,
                repo_notes@,
                "KNOWN_REFACTORS"@,
                "MAX_REFACTORS"@,
            ),
        ),
{
    build_analysis_prompt(
        template,
        repo,
        tree,
        scope_note,
        suppressions,
        known,
        out_path,
        max_findings,
        repo_notes,
        "KNOWN_REFACTORS",
        "MAX_REFACTORS",
    )
}

pub fn build_modernization_prompt(
    template: &str,
    repo: &Repo,
    tree: &str,
    scope_note: &str,
    suppressions: &Vec<Finding>,
    known: &Vec<Finding>,
    out_path: &str,
    max_findings: i64,
    repo_notes: &str,
) -> (r: Result<String, String>)
    ensures
        outcome(r) == rendered(
            template@,
            analysis_slots(
                *repo,
                tree@,
                scope_note@,
                suppressions@,
                known@,
                out_path@,
                max_findings,
                repo_notes@,
                "KNOWN_MODERNIZATIONS"@,
                "MAX_MODERNIZATIONS"@,
            ),
        ),
{
    build_analysis_prompt(
        template,
        repo,
        tree,
        scope_note,
        suppressions,
        known,
        out_path,
        max_findings,
        repo_notes,
        "KNOWN_MODERNIZATIONS",
        "MAX_MODERNIZATIONS",
    )
}

/// The slots of an audit against the coding standards.
/// The slots that a kind of scan names after what it looks for: for what is
/// known, and for the most that is wanted.
pub open spec fn scan_slot_names(kind: RepoJobKind) -> (Seq<char>, Seq<char>) {
    match kind {
        RepoJobKind::TestGap => ("KNOWN_GAPS"@, "MAX_GAPS"@),
        RepoJobKind::DepUpdate => ("KNOWN_UPDATES"@, "MAX_UPDATES"@),
        RepoJobKind::Refactor => ("KNOWN_REFACTORS"@, "MAX_REFACTORS"@),
        RepoJobKind::Modernization => ("KNOWN_MODERNIZATIONS"@, "MAX_MODERNIZATIONS"@),
        RepoJobKind::Hunt | RepoJobKind::Standards => ("KNOWN_FINDINGS"@, "MAX_FINDINGS"@),
    }
}

/// The prompt of a scan that needs neither a range nor standards.
pub fn build_scan_prompt(
    kind: RepoJobKind,
    template: &str,
    repo: &Repo,
    tree: &str,
    scope_note: &str,
    suppressions: &Vec<Finding>,
    known: &Vec<Finding>,
    out_path: &str,
    max_findings: i64,
    repo_notes: &str,
) -> (r: Result<String, String>)
    requires
        kind != RepoJobKind::Hunt,
        kind != RepoJobKind::Standards,
    ensures
        outcome(r) == rendered(
            template@,
            analysis_slots(
                *repo,
                tree@,
                scope_note@,
                suppressions@,
                known@,
                out_path@,
                max_findings,
                repo_notes@,
                scan_slot_names(kind).0,
                scan_slot_names(kind).1,
            ),
        ),
{
    match kind {
        RepoJobKind::TestGap => build_test_gap_prompt(
            template,
            repo,
            tree,
            scope_note,
            suppressions,
            known,
            out_path,
            max_findings,
            repo_notes,
        ),
        RepoJobKind::DepUpdate => build_dep_update_prompt(
            template,
            repo,
            tree,
            scope_note,
            suppressions,
            known,
            out_path,
            max_findings,
            repo_notes,
        ),
        RepoJobKind::Refactor => build_refactor_prompt(
            template,
            repo,
            tree,
            scope_note,
            suppressions,
            known,
            out_path,
            max_findings,
            repo_notes,
        ),
        _ => build_modernization_prompt(
            template,
            repo,
            tree,
            scope_note,
            suppressions,
            known,
            out_path,
            max_findings,
            repo_notes,
        ),
    }
}

pub open spec fn standards_slots(
    repo: Repo,
    tree: Seq<char>,
    scope_note: Seq<char>,
    suppressions: Seq<Finding>,
    known: Seq<Finding>,
    standards: Seq<char>,
    out_path: Seq<char>,
    max_findings: i64,
    repo_notes: Seq<char>,
) -> Map<Seq<char>, Seq<char>> {
    map![
        "REPO_PATH"@ => tree,
        "REPO_NAME"@ => repo.name@,
        "SCOPE_NOTE"@ => scope_note,
        "SUPPRESSIONS"@ => suppressions_text(suppressions),
        "KNOWN_FINDINGS"@ => known_text(known),
        "STANDARDS"@ => standards,
        "OUT_PATH"@ => out_path,
        "MAX_FINDINGS"@ => text::int_text(max_findings as int),
        "REPO_NOTES"@ => notes_text(repo_notes, "(No notes yet)"@),
    ]
}

/// The prompt of an audit. Without standards to audit against there is none.
pub fn build_standards_prompt(
    template: &str,
    repo: &Repo,
    tree: &str,
    scope_note: &str,
    suppressions: &Vec<Finding>,
    known: &Vec<Finding>,
    standards: &str,
    standards_path: &str,
    out_path: &str,
    max_findings: i64,
    repo_notes: &str,
) -> (r: Result<String, String>)
    ensures
        outcome(r) == (if standards@.len() == 0 {
            Err("CODING_STANDARDS.md is empty at "@ + standards_path@)
        } else {
            rendered(
                template@,
                standards_slots(
                    *repo,
                    tree@,
                    scope_note@,
                    suppressions@,
                    known@,
                    standards@,
                    out_path@,
                    max_findings,
                    repo_notes@,
                ),
            )
        }),
{
    if standards.is_empty() {
        return Err("CODING_STANDARDS.md is empty at ".to_owned().concat(standards_path));
    }
    let mut slots = Slots::new();
    slots.put("REPO_PATH", tree);
    slots.put("REPO_NAME", &repo.name);
    slots.put("SCOPE_NOTE", scope_note);
    slots.put("SUPPRESSIONS", &suppressions_block(suppressions));
    slots.put("KNOWN_FINDINGS", &known_block(known));
    slots.put("STANDARDS", standards);
    slots.put("OUT_PATH", out_path);
    slots.put("MAX_FINDINGS", text::int_to_text(max_findings).as_str());
    slots.put("REPO_NOTES", &notes_or_default(repo_notes, "(No notes yet)"));
    render(template, &slots)
}

// ---------------------------------------------------------------------
// Laws
// ---------------------------------------------------------------------

/// Which slots a template names, up to the first thing that is wrong with it.
pub open spec fn named_slots(t: Seq<char>) -> Set<Seq<char>>
    decreases t.len(),
{
    match text::find(t, "{{"@) {
        None => Set::empty(),
        Some(open) => if open < 0 || open + 2 > t.len() {
            Set::empty()
        } else {
            let after = t.skip(open + 2);
            match text::find(after, "}}"@) {
                None => Set::empty(),
                Some(close) => if close < 0 || close + 2 > after.len() {
                    Set::empty()
                } else {
                    named_slots(after.skip(close + 2)).insert(after.take(close))
                },
            }
        },
    }
}

/// A value is never read: whether a template renders depends on which slots
/// are filled, not on what they are filled with.
pub proof fn law_values_are_never_scanned(
    t: Seq<char>,
    m: Map<Seq<char>, Seq<char>>,
    n: Map<Seq<char>, Seq<char>>,
)
    requires
        forall|k: Seq<char>| #[trigger] m.contains_key(k) <==> n.contains_key(k),
    ensures
        rendered(t, m) is Ok <==> rendered(t, n) is Ok,
        rendered(t, m) matches Err(e) ==> rendered(t, n) == Err::<Seq<char>, Seq<char>>(e),
    decreases t.len(),
{
    if let Some(open) = text::find(t, "{{"@) {
        if 0 <= open && open + 2 <= t.len() {
            let after = t.skip(open + 2);
            if let Some(close) = text::find(after, "}}"@) {
                if 0 <= close && close + 2 <= after.len() {
                    assert(m.contains_key(after.take(close)) <==> n.contains_key(after.take(close)));
                    law_values_are_never_scanned(after.skip(close + 2), m, n);
                }
            }
        }
    }
}

/// A template that names a slot which is not filled is rejected.
pub proof fn law_unfilled_slot_is_rejected(t: Seq<char>, m: Map<Seq<char>, Seq<char>>, key: Seq<char>)
    requires
        named_slots(t).contains(key),
        !m.contains_key(key),
    ensures
        rendered(t, m) is Err,
    decreases t.len(),
{
    if let Some(open) = text::find(t, "{{"@) {
        if 0 <= open && open + 2 <= t.len() {
            let after = t.skip(open + 2);
            if let Some(close) = text::find(after, "}}"@) {
                if 0 <= close && close + 2 <= after.len() && key != after.take(close) {
                    law_unfilled_slot_is_rejected(after.skip(close + 2), m, key);
                }
            }
        }
    }
}

/// A slot that the template does not name changes nothing.
pub proof fn law_unnamed_slot_is_ignored(
    t: Seq<char>,
    m: Map<Seq<char>, Seq<char>>,
    key: Seq<char>,
    value: Seq<char>,
)
    requires
        !named_slots(t).contains(key),
    ensures
        rendered(t, m.insert(key, value)) == rendered(t, m),
    decreases t.len(),
{
    if let Some(open) = text::find(t, "{{"@) {
        if 0 <= open && open + 2 <= t.len() {
            let after = t.skip(open + 2);
            if let Some(close) = text::find(after, "}}"@) {
                if 0 <= close && close + 2 <= after.len() {
                    assert(named_slots(t).contains(after.take(close)));
                    assert(key != after.take(close));
                    assert(!named_slots(after.skip(close + 2)).contains(key));
                    law_unnamed_slot_is_ignored(after.skip(close + 2), m, key, value);
                }
            }
        }
    }
}

/// Remarks are shown in order: none stands before an earlier one.
pub proof fn law_feedback_is_chronological(v: Seq<RemarkView>)
    ensures
        in_order(v).len() == v.len(),
        forall|i: int, j: int|
            0 <= i < j < v.len() ==> !remark_lt(#[trigger] in_order(v)[j], #[trigger] in_order(v)[i]),
    decreases v.len(),
{
    if v.len() > 0 {
        law_feedback_is_chronological(v.drop_last());
        lemma_insert_keeps_order(in_order(v.drop_last()), v.last());
    }
}

proof fn lemma_remark_transitive(a: RemarkView, b: RemarkView, c: RemarkView)
    requires
        remark_lt(a, b),
        remark_lt(b, c),
    ensures
        remark_lt(a, c),
{
    if text::lex_lt(a.at, b.at) && text::lex_lt(b.at, c.at) {
        text::lemma_lex_transitive(a.at, b.at, c.at);
    }
    if text::lex_lt(a.who, b.who) && text::lex_lt(b.who, c.who) {
        text::lemma_lex_transitive(a.who, b.who, c.who);
    }
    if text::lex_lt(a.body, b.body) && text::lex_lt(b.body, c.body) {
        text::lemma_lex_transitive(a.body, b.body, c.body);
    }
}

proof fn lemma_remark_asymmetric(a: RemarkView, b: RemarkView)
    requires
        remark_lt(a, b),
    ensures
        !remark_lt(b, a),
{
    if remark_lt(b, a) {
        lemma_remark_transitive(a, b, a);
        text::lemma_lex_irreflexive(a.at);
        text::lemma_lex_irreflexive(a.who);
        text::lemma_lex_irreflexive(a.body);
    }
}

proof fn lemma_remark_total(a: RemarkView, b: RemarkView)
    ensures
        a == b || remark_lt(a, b) || remark_lt(b, a),
{
    text::lemma_lex_total(a.at, b.at);
    text::lemma_lex_total(a.who, b.who);
    text::lemma_lex_total(a.body, b.body);
}

proof fn lemma_insert_keeps_order(v: Seq<RemarkView>, x: RemarkView)
    requires
        forall|i: int, j: int| 0 <= i < j < v.len() ==> !remark_lt(#[trigger] v[j], #[trigger] v[i]),
    ensures
        insert_remark(v, x).len() == v.len() + 1,
        forall|k: int|
            0 <= k < v.len() + 1 ==> (#[trigger] insert_remark(v, x)[k]) == x || v.contains(
                insert_remark(v, x)[k],
            ),
        forall|i: int, j: int|
            0 <= i < j < v.len() + 1 ==> !remark_lt(
                #[trigger] insert_remark(v, x)[j],
                #[trigger] insert_remark(v, x)[i],
            ),
    decreases v.len(),
{
    let r = insert_remark(v, x);
    if v.len() > 0 && remark_lt(x, v.last()) {
        let w = v.drop_last();
        lemma_insert_keeps_order(w, x);
        let s = insert_remark(w, x);
        assert forall|k: int| 0 <= k < v.len() + 1 implies (#[trigger] r[k]) == x || v.contains(r[k]) by {
            if k < s.len() {
                if s[k] != x {
                    let m = choose|m: int| 0 <= m < w.len() && w[m] == s[k];
                    assert(v[m] == s[k]);
                }
            } else {
                assert(v[v.len() - 1] == r[k]);
            }
        }
        assert forall|i: int, j: int| 0 <= i < j < v.len() + 1 implies !remark_lt(
            #[trigger] r[j],
            #[trigger] r[i],
        ) by {
            if j == v.len() {
                if s[i] == x {
                    lemma_remark_asymmetric(x, v.last());
                } else {
                    let m = choose|m: int| 0 <= m < w.len() && w[m] == s[i];
                    assert(!remark_lt(v[v.len() - 1], v[m]));
                }
            } else {
                assert(!remark_lt(s[j], s[i]));
            }
        }
    } else {
        assert forall|k: int| 0 <= k < v.len() + 1 implies (#[trigger] r[k]) == x || v.contains(r[k]) by {
            if k < v.len() {
                assert(v[k] == r[k]);
            }
        }
        assert forall|i: int, j: int| 0 <= i < j < v.len() + 1 implies !remark_lt(
            #[trigger] r[j],
            #[trigger] r[i],
        ) by {
            if j == v.len() {
                let l = v.last();
                if i < v.len() - 1 && remark_lt(x, v[i]) {
                    assert(!remark_lt(v[v.len() - 1], v[i]));
                    lemma_remark_total(l, v[i]);
                    if l != v[i] {
                        lemma_remark_transitive(x, v[i], l);
                    }
                }
            }
        }
    }
}

/// Nothing that was said is left out or made up by the order.
pub proof fn law_order_keeps_every_remark(v: Seq<RemarkView>)
    ensures
        in_order(v).to_multiset() == v.to_multiset(),
    decreases v.len(),
{
    broadcast use vstd::seq_lib::group_to_multiset_ensures;

    if v.len() > 0 {
        law_order_keeps_every_remark(v.drop_last());
        lemma_insert_keeps_all(in_order(v.drop_last()), v.last());
        assert(v =~= v.drop_last().push(v.last()));
    }
}

proof fn lemma_insert_keeps_all(v: Seq<RemarkView>, x: RemarkView)
    ensures
        insert_remark(v, x).to_multiset() == v.to_multiset().insert(x),
    decreases v.len(),
{
    broadcast use vstd::seq_lib::group_to_multiset_ensures;

    if v.len() > 0 && remark_lt(x, v.last()) {
        lemma_insert_keeps_all(v.drop_last(), x);
        assert(v =~= v.drop_last().push(v.last()));
        assert(insert_remark(v, x).to_multiset() =~= v.to_multiset().insert(x));
    }
}

/// The blocks that are kept fit, unless a single one is all that is left.
pub proof fn law_feedback_is_bounded(v: Seq<Seq<char>>, cap: int)
    ensures
        surplus(v, cap) <= v.len(),
        v.len() > 0 ==> surplus(v, cap) < v.len(),
        weight(v.skip(surplus(v, cap) as int)) <= cap || v.len() - surplus(v, cap) <= 1,
    decreases v.len(),
{
    if v.len() > 1 && weight(v) > cap {
        law_feedback_is_bounded(v.skip(1), cap);
        assert(v.skip(1).skip(surplus(v.skip(1), cap) as int) =~= v.skip(surplus(v, cap) as int));
    } else {
        assert(v.skip(0) =~= v);
    }
}

/// What stands before a placeholder is kept, the placeholder gives way to its
/// slot's value, and what follows is rendered in the same way; a text without
/// a placeholder is kept as it is.
pub proof fn law_placeholder_gives_way_to_its_value(
    start: Seq<char>,
    key: Seq<char>,
    rest: Seq<char>,
    m: Map<Seq<char>, Seq<char>>,
)
    requires
        !text::holds_char(start, '{'),
        !text::holds_char(key, '}'),
        m.contains_key(key),
    ensures
        rendered(start, m) == Ok::<Seq<char>, Seq<char>>(start),
        rendered(rest, m) matches Ok(out) ==> rendered(start + "{{"@ + key + "}}"@ + rest, m) == Ok::<
            Seq<char>,
            Seq<char>,
        >(start + m[key] + out),
        rendered(rest, m) matches Err(e) ==> rendered(start + "{{"@ + key + "}}"@ + rest, m) == Err::<
            Seq<char>,
            Seq<char>,
        >(e),
{
    reveal_strlit("{{");
    reveal_strlit("}}");
    assert("{{"@ =~= seq!['{', '{']);
    assert("}}"@ =~= seq!['}', '}']);
    let t = start + "{{"@ + key + "}}"@ + rest;
    lemma_no_pair(start, '{');
    lemma_first_pair(start, '{', key + "}}"@ + rest);
    assert(start + seq!['{', '{'] + (key + "}}"@ + rest) =~= t);
    let after = t.skip(start.len() as int + 2);
    assert(after =~= key + "}}"@ + rest);
    lemma_first_pair(key, '}', rest);
    assert(after.take(key.len() as int) =~= key);
    assert(after.skip(key.len() as int + 2) =~= rest);
    assert(t.take(start.len() as int) =~= start);
}

proof fn lemma_pair_at(s: Seq<char>, c: char, k: int)
    requires
        text::occurs_at(s, seq![c, c], k),
    ensures
        0 <= k < s.len(),
        s[k] == c,
{
    assert(s.subrange(k, k + 2)[0] == seq![c, c][0]);
}

proof fn lemma_no_pair(a: Seq<char>, c: char)
    requires
        !text::holds_char(a, c),
    ensures
        text::find(a, seq![c, c]) is None,
{
    text::lemma_find_from(a, seq![c, c], 0);
    if let Some(k) = text::find(a, seq![c, c]) {
        lemma_pair_at(a, c, k);
    }
}

proof fn lemma_pair_found(s: Seq<char>, c: char, n: int)
    requires
        text::occurs_at(s, seq![c, c], n),
        forall|k: int| 0 <= k < n ==> #[trigger] s[k] != c,
    ensures
        text::find(s, seq![c, c]) == Some(n),
{
    text::lemma_find_from(s, seq![c, c], 0);
    match text::find(s, seq![c, c]) {
        Some(k) => {
            lemma_pair_at(s, c, k);
        },
        None => {},
    }
}

proof fn lemma_first_pair(a: Seq<char>, c: char, b: Seq<char>)
    requires
        !text::holds_char(a, c),
    ensures
        text::find(a + seq![c, c] + b, seq![c, c]) == Some(a.len() as int),
{
    let s = a + seq![c, c] + b;
    let n = a.len() as int;
    assert(text::occurs_at(s, seq![c, c], n)) by {
        assert(s.subrange(n, n + 2) =~= seq![c, c]);
    }
    assert forall|k: int| 0 <= k < n implies #[trigger] s[k] != c by {
        assert(s[k] == a[k]);
    }
    lemma_pair_found(s, c, n);
}

/// A hunt is told where it looks, at which commits, what is known and what it
/// is to leave alone, where to write and how much.
pub proof fn law_hunt_prompt_says_what_to_do(
    repo: Repo,
    tree: Seq<char>,
    diff_range: Seq<char>,
    scope_note: Seq<char>,
    suppressions: Seq<Finding>,
    known: Seq<Finding>,
    out_path: Seq<char>,
    max_findings: i64,
    repo_notes: Seq<char>,
)
    ensures
        ({
            let m = hunt_slots(
                repo,
                tree,
                diff_range,
                scope_note,
                suppressions,
                known,
                out_path,
                max_findings,
                repo_notes,
            );
            &&& slot(m, "REPO_PATH"@) == Some(tree)
            &&& slot(m, "REPO_NAME"@) == Some(repo.name@)
            &&& slot(m, "DIFF_RANGE"@) == Some(diff_range)
            &&& slot(m, "SCOPE_NOTE"@) == Some(scope_note)
            &&& slot(m, "SUPPRESSIONS"@) == Some(suppressions_text(suppressions))
            &&& slot(m, "KNOWN_FINDINGS"@) == Some(known_text(known))
            &&& slot(m, "OUT_PATH"@) == Some(out_path)
            &&& slot(m, "MAX_FINDINGS"@) == Some(text::int_text(max_findings as int))
            &&& repo_notes.len() > 0 ==> slot(m, "REPO_NOTES"@) == Some(repo_notes)
        }),
{
    lemma_slot_names();
}

/// A fix is told where it works, on which branch, and what it fixes.
pub proof fn law_fix_prompt_says_what_to_do(
    finding_json: Seq<char>,
    worktree: Seq<char>,
    branch: Seq<char>,
    repo: Repo,
    repo_notes: Seq<char>,
)
    ensures
        ({
            let m = fix_slots(finding_json, worktree, branch, repo, repo_notes);
            &&& slot(m, "WORKTREE"@) == Some(worktree)
            &&& slot(m, "BRANCH"@) == Some(branch)
            &&& slot(m, "FINDING_JSON"@) == Some(finding_json)
            &&& slot(m, "REPO_NAME"@) == Some(repo.name@)
            &&& repo_notes.len() > 0 ==> slot(m, "REPO_NOTES"@) == Some(repo_notes)
        }),
{
    lemma_slot_names();
}

/// An engagement is told what was said of the pull request, how its checks
/// stand, and why it needs attention.
pub proof fn law_engage_prompt_says_what_to_do(
    worktree: Seq<char>,
    branch: Seq<char>,
    repo: Repo,
    pr: PrView,
    ps: PrState,
    repo_notes: Seq<char>,
)
    ensures
        ({
            let m = engage_slots(worktree, branch, repo, pr, ps, repo_notes);
            &&& slot(m, "WORKTREE"@) == Some(worktree)
            &&& slot(m, "BRANCH"@) == Some(branch)
            &&& slot(m, "REPO_NAME"@) == Some(repo.name@)
            &&& slot(m, "DEFAULT_BRANCH"@) == Some(repo.default_branch@)
            &&& slot(m, "PR_TITLE"@) == Some(pr.title@)
            &&& pr.body@.len() > 0 ==> slot(m, "PR_BODY"@) == Some(pr.body@)
            &&& slot(m, "FEEDBACK"@) == Some(feedback(pr, 8000))
            &&& slot(m, "CHECKS"@) == Some(checks_text(pr))
            &&& ps.needs_attention matches Some(s) ==> slot(m, "ATTENTION"@) == Some(s@)
            &&& repo_notes.len() > 0 ==> slot(m, "REPO_NOTES"@) == Some(repo_notes)
        }),
{
    lemma_slot_names();
}

/// A harvest is told of the finding and of the pull request that came of it.
pub proof fn law_harvest_prompt_says_what_to_do(
    finding_json: Seq<char>,
    worktree: Seq<char>,
    repo: Repo,
    pr: PrView,
    pr_number: i64,
    repo_notes: Seq<char>,
)
    ensures
        ({
            let m = harvest_slots(finding_json, worktree, repo, pr, pr_number, repo_notes);
            &&& slot(m, "WORKTREE"@) == Some(worktree)
            &&& slot(m, "REPO_NAME"@) == Some(repo.name@)
            &&& slot(m, "DEFAULT_BRANCH"@) == Some(repo.default_branch@)
            &&& slot(m, "FINDING_JSON"@) == Some(finding_json)
            &&& slot(m, "PR_NUMBER"@) == Some(text::int_text(pr_number as int))
            &&& slot(m, "PR_TITLE"@) == Some(pr.title@)
            &&& pr.body@.len() > 0 ==> slot(m, "PR_BODY"@) == Some(pr.body@)
            &&& slot(m, "FEEDBACK"@) == Some(feedback(pr, 8000))
            &&& repo_notes.len() > 0 ==> slot(m, "REPO_NOTES"@) == Some(repo_notes)
        }),
{
    lemma_slot_names();
}

/// A recheck is told which finding it checks, where, and where to write.
pub proof fn law_recheck_prompt_says_what_to_do(
    finding_json: Seq<char>,
    repo: Repo,
    tree: Seq<char>,
    out_path: Seq<char>,
    repo_notes: Seq<char>,
)
    ensures
        ({
            let m = recheck_slots(finding_json, repo, tree, out_path, repo_notes);
            &&& slot(m, "REPO_PATH"@) == Some(tree)
            &&& slot(m, "REPO_NAME"@) == Some(repo.name@)
            &&& slot(m, "FINDING_JSON"@) == Some(finding_json)
            &&& slot(m, "OUT_PATH"@) == Some(out_path)
            &&& repo_notes.len() > 0 ==> slot(m, "REPO_NOTES"@) == Some(repo_notes)
        }),
{
    lemma_slot_names();
}

/// An audit is told the standards that it holds the code to.
pub proof fn law_standards_prompt_says_what_to_do(
    repo: Repo,
    tree: Seq<char>,
    scope_note: Seq<char>,
    suppressions: Seq<Finding>,
    known: Seq<Finding>,
    standards: Seq<char>,
    out_path: Seq<char>,
    max_findings: i64,
    repo_notes: Seq<char>,
)
    ensures
        ({
            let m = standards_slots(
                repo,
                tree,
                scope_note,
                suppressions,
                known,
                standards,
                out_path,
                max_findings,
                repo_notes,
            );
            &&& slot(m, "REPO_PATH"@) == Some(tree)
            &&& slot(m, "REPO_NAME"@) == Some(repo.name@)
            &&& slot(m, "SCOPE_NOTE"@) == Some(scope_note)
            &&& slot(m, "SUPPRESSIONS"@) == Some(suppressions_text(suppressions))
            &&& slot(m, "KNOWN_FINDINGS"@) == Some(known_text(known))
            &&& slot(m, "STANDARDS"@) == Some(standards)
            &&& slot(m, "OUT_PATH"@) == Some(out_path)
            &&& slot(m, "MAX_FINDINGS"@) == Some(text::int_text(max_findings as int))
            &&& repo_notes.len() > 0 ==> slot(m, "REPO_NOTES"@) == Some(repo_notes)
        }),
{
    lemma_slot_names();
}

/// Any other scan is told the same under the names of what it looks for.
pub proof fn law_scan_prompt_says_what_to_do(
    kind: RepoJobKind,
    repo: Repo,
    tree: Seq<char>,
    scope_note: Seq<char>,
    suppressions: Seq<Finding>,
    known: Seq<Finding>,
    out_path: Seq<char>,
    max_items: i64,
    repo_notes: Seq<char>,
)
    ensures
        ({
            let names = scan_slot_names(kind);
            let m = analysis_slots(
                repo,
                tree,
                scope_note,
                suppressions,
                known,
                out_path,
                max_items,
                repo_notes,
                names.0,
                names.1,
            );
            let most = Some(text::int_text(max_items as int));
            &&& slot(m, "REPO_PATH"@) == Some(tree)
            &&& slot(m, "REPO_NAME"@) == Some(repo.name@)
            &&& slot(m, "SCOPE_NOTE"@) == Some(scope_note)
            &&& slot(m, "SUPPRESSIONS"@) == Some(suppressions_text(suppressions))
            &&& slot(m, "OUT_PATH"@) == Some(out_path)
            &&& repo_notes.len() > 0 ==> slot(m, "REPO_NOTES"@) == Some(repo_notes)
            &&& kind == RepoJobKind::TestGap ==> slot(m, "KNOWN_GAPS"@) == Some(known_text(known)) && slot(
                m,
                "MAX_GAPS"@,
            ) == most
            &&& kind == RepoJobKind::DepUpdate ==> slot(m, "KNOWN_UPDATES"@) == Some(known_text(known)) && slot(
                m,
                "MAX_UPDATES"@,
            ) == most
            &&& kind == RepoJobKind::Refactor ==> slot(m, "KNOWN_REFACTORS"@) == Some(known_text(known))
                && slot(m, "MAX_REFACTORS"@) == most
            &&& kind == RepoJobKind::Modernization ==> slot(m, "KNOWN_MODERNIZATIONS"@) == Some(
                known_text(known),
            ) && slot(m, "MAX_MODERNIZATIONS"@) == most
        }),
{
    lemma_slot_names();
    reveal_strlit("KNOWN_GAPS");
    reveal_strlit("MAX_GAPS");
    reveal_strlit("KNOWN_UPDATES");
    reveal_strlit("MAX_UPDATES");
    reveal_strlit("KNOWN_REFACTORS");
    reveal_strlit("MAX_REFACTORS");
    reveal_strlit("KNOWN_MODERNIZATIONS");
    reveal_strlit("MAX_MODERNIZATIONS");
    assert("KNOWN_GAPS"@[0] == 'K' && "MAX_GAPS"@[0] == 'M');
    assert("KNOWN_UPDATES"@[0] == 'K' && "MAX_UPDATES"@[0] == 'M');
    assert("KNOWN_REFACTORS"@[0] == 'K' && "MAX_REFACTORS"@[0] == 'M');
    assert("KNOWN_MODERNIZATIONS"@[0] == 'K' && "MAX_MODERNIZATIONS"@[0] == 'M');
}

/// The names of the slots differ, by their lengths or by a character.
proof fn lemma_slot_names()
    ensures
        "REPO_PATH"@.len() == 9 && "REPO_PATH"@[0] == 'R' && "REPO_PATH"@[5] == 'P',
        "REPO_NAME"@.len() == 9 && "REPO_NAME"@[0] == 'R' && "REPO_NAME"@[5] == 'N',
        "REPO_NOTES"@.len() == 10 && "REPO_NOTES"@[0] == 'R',
        "DIFF_RANGE"@.len() == 10 && "DIFF_RANGE"@[0] == 'D',
        "SCOPE_NOTE"@.len() == 10 && "SCOPE_NOTE"@[0] == 'S',
        "SUPPRESSIONS"@.len() == 12 && "SUPPRESSIONS"@[0] == 'S',
        "KNOWN_FINDINGS"@.len() == 14 && "KNOWN_FINDINGS"@[0] == 'K',
        "OUT_PATH"@.len() == 8 && "OUT_PATH"@[0] == 'O',
        "MAX_FINDINGS"@.len() == 12 && "MAX_FINDINGS"@[0] == 'M',
        "WORKTREE"@.len() == 8 && "WORKTREE"@[0] == 'W',
        "BRANCH"@.len() == 6 && "BRANCH"@[0] == 'B',
        "FINDING_JSON"@.len() == 12 && "FINDING_JSON"@[0] == 'F',
        "DEFAULT_BRANCH"@.len() == 14 && "DEFAULT_BRANCH"@[0] == 'D',
        "PR_TITLE"@.len() == 8 && "PR_TITLE"@[0] == 'P',
        "PR_BODY"@.len() == 7 && "PR_BODY"@[0] == 'P',
        "PR_NUMBER"@.len() == 9 && "PR_NUMBER"@[0] == 'P',
        "FEEDBACK"@.len() == 8 && "FEEDBACK"@[0] == 'F',
        "CHECKS"@.len() == 6 && "CHECKS"@[0] == 'C',
        "ATTENTION"@.len() == 9 && "ATTENTION"@[0] == 'A',
        "STANDARDS"@.len() == 9 && "STANDARDS"@[0] == 'S',
{
    reveal_strlit("REPO_PATH");
    reveal_strlit("REPO_NAME");
    reveal_strlit("REPO_NOTES");
    reveal_strlit("DIFF_RANGE");
    reveal_strlit("SCOPE_NOTE");
    reveal_strlit("SUPPRESSIONS");
    reveal_strlit("KNOWN_FINDINGS");
    reveal_strlit("OUT_PATH");
    reveal_strlit("MAX_FINDINGS");
    reveal_strlit("WORKTREE");
    reveal_strlit("BRANCH");
    reveal_strlit("FINDING_JSON");
    reveal_strlit("DEFAULT_BRANCH");
    reveal_strlit("PR_TITLE");
    reveal_strlit("PR_BODY");
    reveal_strlit("PR_NUMBER");
    reveal_strlit("FEEDBACK");
    reveal_strlit("CHECKS");
    reveal_strlit("ATTENTION");
    reveal_strlit("STANDARDS");
}

/// One more finding adds one line: with its fingerprint and the reason why it
/// was rejected, or with its fingerprint, its status and its summary.
pub proof fn law_every_finding_has_its_line(v: Seq<Finding>, f: Finding)
    requires
        v.len() > 0,
    ensures
        f.verdict_reason matches Some(s) ==> suppressions_text(v.push(f)) == suppressions_text(v) + "\n"@ + ("- "@
            + f.fingerprint@ + " -- "@ + s@),
        known_text(v.push(f)) == known_text(v) + "\n"@ + ("- "@ + f.fingerprint@ + " ["@ + f.status.text()
            + "] -- "@ + f.summary@),
{
    let a = v.push(f).map_values(|x: Finding| suppression_line(x));
    let b = v.push(f).map_values(|x: Finding| known_line(x));
    assert(a.drop_last() =~= v.map_values(|x: Finding| suppression_line(x)));
    assert(b.drop_last() =~= v.map_values(|x: Finding| known_line(x)));
}

/// Every scan has the playbook of its name, and so has work on a finding,
/// but for the fixes of what is no bug.
pub proof fn law_playbooks_are_named_by_their_job(scan: RepoJobKind, kind: FindingJobKind, what: FindingType)
    ensures
        scan_playbook(scan) == scan.text() + ".md"@,
        kind != FindingJobKind::Fix || what == FindingType::Bug ==> finding_playbook(kind, what) == kind.text()
            + ".md"@,
        kind == FindingJobKind::Fix && what == FindingType::Modernization ==> finding_playbook(kind, what)
            == "apply_modernization.md"@,
        kind == FindingJobKind::Fix && what != FindingType::Modernization && what != FindingType::Bug
            ==> finding_playbook(kind, what) == "apply_improvement.md"@,
{
    reveal_strlit(".md");
    reveal_strlit("hunt");
    reveal_strlit("hunt.md");
    reveal_strlit("test_gap");
    reveal_strlit("test_gap.md");
    reveal_strlit("dep_update");
    reveal_strlit("dep_update.md");
    reveal_strlit("refactor");
    reveal_strlit("refactor.md");
    reveal_strlit("modernization");
    reveal_strlit("modernization.md");
    reveal_strlit("standards");
    reveal_strlit("standards.md");
    reveal_strlit("fix");
    reveal_strlit("fix.md");
    reveal_strlit("engage");
    reveal_strlit("engage.md");
    reveal_strlit("harvest");
    reveal_strlit("harvest.md");
    reveal_strlit("recheck");
    reveal_strlit("recheck.md");
    assert(scan_playbook(scan) =~= scan.text() + ".md"@);
    if kind != FindingJobKind::Fix || what == FindingType::Bug {
        assert(finding_playbook(kind, what) =~= kind.text() + ".md"@);
    }
}

/// A remark is shown under the name and the time of who made it; a comment
/// has the time at which it was made, a review the time at which it was
/// handed in and its state before what it says.
pub proof fn law_remark_names_its_author(c: GhComment, r: GhReview, x: RemarkView)
    ensures
        remark_block(x) == "### "@ + x.who + " at "@ + x.at + "\n"@ + x.body,
        c.author matches Some(a) ==> comment_remark(c).who == a.login@,
        comment_remark(c).at == c.created_at@,
        comment_remark(c).body == text::trim(c.body@, Cut::White),
        r.state@ == "COMMENTED"@ || r.state@.len() == 0 ==> review_body(r) == text::trim(r.body@, Cut::White),
        r.state@ == "CHANGES_REQUESTED"@ ==> review_body(r) == text::trim(
            "[review: "@ + r.state@ + "] "@ + text::trim(r.body@, Cut::White),
            Cut::White,
        ),
{
    reveal_strlit("COMMENTED");
    reveal_strlit("CHANGES_REQUESTED");
    assert("COMMENTED"@.len() == 9);
    assert("CHANGES_REQUESTED"@.len() == 17);
}

/// One more review is one more remark exactly where it says something, and
/// has the name and the time of the review.
pub proof fn law_silent_reviews_are_left_out(v: Seq<GhReview>, r: GhReview)
    ensures
        review_body(r).len() == 0 ==> review_remarks(v.push(r)) == review_remarks(v),
        review_body(r).len() > 0 ==> {
            let all = review_remarks(v.push(r));
            &&& all.len() == review_remarks(v).len() + 1
            &&& all.drop_last() == review_remarks(v)
            &&& all.last().at == r.submitted_at@
            &&& all.last().body == review_body(r)
            &&& r.author matches Some(a) ==> all.last().who == a.login@
        },
{
    assert(v.push(r).drop_last() =~= v);
    if review_body(r).len() > 0 {
        assert(review_remarks(v.push(r)).drop_last() =~= review_remarks(v));
    }
}

/// The oldest remark stands first: none was made before the one above it.
pub proof fn law_oldest_remark_is_first(v: Seq<RemarkView>)
    ensures
        forall|i: int, j: int|
            0 <= i < j < v.len() ==> !text::lex_lt(
                (#[trigger] in_order(v)[j]).at,
                (#[trigger] in_order(v)[i]).at,
            ),
{
    law_feedback_is_chronological(v);
    assert forall|i: int, j: int| 0 <= i < j < v.len() implies !text::lex_lt(
        (#[trigger] in_order(v)[j]).at,
        (#[trigger] in_order(v)[i]).at,
    ) by {
        assert(!remark_lt(in_order(v)[j], in_order(v)[i]));
    }
}

/// No more is dropped than must be, and the newest never is: with one fewer
/// dropped the rest would not fit. How many are missing is said first.
pub proof fn law_newest_remarks_are_kept(v: Seq<Seq<char>>, cap: int, n: nat)
    requires
        v.len() > 0,
    ensures
        n < surplus(v, cap) ==> weight(v.skip(n as int)) > cap,
        weight(v) <= cap ==> within(v, cap) == v,
        within(v, cap).last() == v.last(),
        surplus(v, cap) > 0 ==> within(v, cap)[0] == "("@ + text::nat_text(surplus(v, cap))
            + " older item(s) elided)"@ && within(v, cap).skip(1) == v.skip(surplus(v, cap) as int),
{
    law_feedback_is_bounded(v, cap);
    lemma_dropped_while_over(v, cap, n);
    if surplus(v, cap) > 0 {
        assert(within(v, cap).skip(1) =~= v.skip(surplus(v, cap) as int));
    }
}

proof fn lemma_dropped_while_over(v: Seq<Seq<char>>, cap: int, n: nat)
    ensures
        n < surplus(v, cap) ==> weight(v.skip(n as int)) > cap,
    decreases v.len(),
{
    if n < surplus(v, cap) {
        if n == 0 {
            assert(v.skip(0) =~= v);
        } else {
            law_feedback_is_bounded(v, cap);
            lemma_dropped_while_over(v.skip(1), cap, (n - 1) as nat);
            assert(v.skip(1).skip(n - 1) =~= v.skip(n as int));
        }
    }
}

/// A block weighs its bytes and the blank line after it.
pub proof fn law_weight_adds_up(v: Seq<Seq<char>>, x: Seq<char>)
    ensures
        weight(v.push(x)) == weight(v) + encode_utf8(x).len() + 2,
        weight(Seq::empty()) == 0,
{
    assert(v.push(x).drop_last() =~= v);
}

/// A check is shown by its name, or its context where it has none, with how
/// it ended, or how it stands where it has not.
pub proof fn law_check_is_shown_by_its_name(c: GhCheckRun)
    ensures
        c.name matches Some(n) ==> c.conclusion matches Some(e) ==> check_line(c) == "- "@ + n@ + ": "@ + e@,
        c.context matches Some(n) ==> c.conclusion matches Some(e) ==> c.name is None ==> check_line(c) == "- "@
            + n@ + ": "@ + e@,
        c.name matches Some(n) ==> c.state matches Some(e) ==> c.conclusion is None ==> check_line(c) == "- "@
            + n@ + ": "@ + e@,
        c.name matches Some(n) ==> c.conclusion is None && c.state is None ==> check_line(c) == "- "@ + n@ + ": "@
            + "PENDING"@,
{
}

/// Up to thirty checks each add their line; those after them add none.
pub proof fn law_thirty_checks_are_shown(pr: PrView, more: PrView, c: GhCheckRun)
    requires
        pr.status_check_rollup@.len() > 0,
        more.status_check_rollup@ == pr.status_check_rollup@.push(c),
    ensures
        pr.status_check_rollup@.len() < 30 ==> checks_text(more) == checks_text(pr) + "\n"@ + check_line(c),
        pr.status_check_rollup@.len() >= 30 ==> checks_text(more) == checks_text(pr),
{
    let v = pr.status_check_rollup@;
    let w = more.status_check_rollup@;
    if v.len() < 30 {
        assert(w.take(util::min_int(30, w.len() as int)) =~= w);
        assert(v.take(util::min_int(30, v.len() as int)) =~= v);
        let a = w.map_values(|x: GhCheckRun| check_line(x));
        assert(a.drop_last() =~= v.map_values(|x: GhCheckRun| check_line(x)));
    } else {
        assert(w.take(30) =~= v.take(30));
    }
}

/// Whether a prompt shows a text under a name.
pub open spec fn shows(f: Finding, name: Seq<char>, value: Seq<char>) -> bool {
    shown_fields(f).contains((name, FieldValueView::Text { value }))
}

/// A prompt shows what is known of a finding, each value under the name of
/// its own field.
pub proof fn law_prompt_shows_the_finding(f: Finding)
    ensures
        shows(f, "type"@, f.kind.text()),
        shows(f, "fingerprint"@, f.fingerprint@),
        shows(f, "severity"@, f.severity.text()),
        shows(f, "summary"@, f.summary@),
        f.line matches Some(n) ==> shown_fields(f).contains(("line"@, FieldValueView::Number { value: n })),
        f.bug_class matches Some(b) ==> shows(f, "bug_class"@, b.text()),
        f.file matches Some(s) ==> shows(f, "file"@, s@),
        f.symbol matches Some(s) ==> shows(f, "symbol"@, s@),
        f.detail matches Some(s) ==> shows(f, "detail"@, s@),
        f.evidence_plan matches Some(s) ==> shows(f, "evidence_plan"@, s@),
        f.introduced_by matches Some(s) ==> shows(f, "introduced_by"@, s@),
        f.ecosystem matches Some(s) ==> shows(f, "ecosystem"@, s@),
        f.package matches Some(s) ==> shows(f, "package"@, s@),
        f.current_version matches Some(s) ==> shows(f, "current_version"@, s@),
        f.latest_version matches Some(s) ==> shows(f, "latest_version"@, s@),
        f.update_type matches Some(s) ==> shows(f, "update_type"@, s@),
        f.security_advisory matches Some(s) ==> shows(f, "security_advisory"@, s@),
        f.missing_tests matches Some(s) ==> shows(f, "missing_tests"@, s@),
        f.test_file matches Some(s) ==> shows(f, "test_file"@, s@),
        f.smell_type matches Some(s) ==> shows(f, "smell_type"@, s@),
        f.suggested_refactor matches Some(s) ==> shows(f, "suggested_refactor"@, s@),
        f.modernization_class matches Some(s) ==> shows(f, "modernization_class"@, s@),
        f.current_approach matches Some(s) ==> shows(f, "current_approach"@, s@),
        f.proposed_approach matches Some(s) ==> shows(f, "proposed_approach"@, s@),
{
    broadcast use vstd::seq_lib::lemma_seq_concat_contains_all_elements;

    lemma_text_shown("type"@, Some(f.kind.text()));
    lemma_text_shown("fingerprint"@, Some(f.fingerprint@));
    lemma_text_shown("severity"@, Some(f.severity.text()));
    lemma_text_shown("summary"@, Some(f.summary@));
    lemma_text_shown("bug_class"@, class_text(f));
    if let Some(n) = f.line {
        assert(number_shown("line"@, f.line)[0] == ("line"@, FieldValueView::Number { value: n }));
    }
    lemma_text_shown("file"@, text::opt_text(f.file));
    lemma_text_shown("symbol"@, text::opt_text(f.symbol));
    lemma_text_shown("detail"@, text::opt_text(f.detail));
    lemma_text_shown("evidence_plan"@, text::opt_text(f.evidence_plan));
    lemma_text_shown("introduced_by"@, text::opt_text(f.introduced_by));
    lemma_text_shown("ecosystem"@, text::opt_text(f.ecosystem));
    lemma_text_shown("package"@, text::opt_text(f.package));
    lemma_text_shown("current_version"@, text::opt_text(f.current_version));
    lemma_text_shown("latest_version"@, text::opt_text(f.latest_version));
    lemma_text_shown("update_type"@, text::opt_text(f.update_type));
    lemma_text_shown("security_advisory"@, text::opt_text(f.security_advisory));
    lemma_text_shown("missing_tests"@, text::opt_text(f.missing_tests));
    lemma_text_shown("test_file"@, text::opt_text(f.test_file));
    lemma_text_shown("smell_type"@, text::opt_text(f.smell_type));
    lemma_text_shown("suggested_refactor"@, text::opt_text(f.suggested_refactor));
    lemma_text_shown("modernization_class"@, text::opt_text(f.modernization_class));
    lemma_text_shown("current_approach"@, text::opt_text(f.current_approach));
    lemma_text_shown("proposed_approach"@, text::opt_text(f.proposed_approach));
}

proof fn lemma_text_shown(name: Seq<char>, v: Option<Seq<char>>)
    ensures
        v matches Some(value) ==> text_shown(name, v).contains((name, FieldValueView::Text { value })),
{
    if let Some(value) = v {
        assert(text_shown(name, v)[0] == (name, FieldValueView::Text { value }));
    }
}

/// A field without a value is not shown: there are as many entries as values.
pub proof fn law_prompt_shows_no_empty_field(f: Finding)
    requires
        f.file is None && f.symbol is None && f.line is None && f.bug_class is None,
        f.detail is None && f.evidence_plan is None && f.introduced_by is None && f.ecosystem is None && f.package is None && f.current_version is None && f.latest_version is None && f.update_type is None,
        f.security_advisory is None && f.missing_tests is None && f.test_file is None && f.smell_type is None && f.suggested_refactor is None && f.modernization_class is None && f.current_approach is None && f.proposed_approach is None,
    ensures
        shown_fields(f).len() == 4,
{
}

} // verus!
