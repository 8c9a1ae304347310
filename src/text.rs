//! Text the application shows: numbers, age labels, comment bodies with
//! their markup removed, tree guides and the spinner.

use crate::app::{App, HNCLIItem};
use crate::tree::{nodes_of, Comment, CommentState, Node};
use crate::clock::now;
use vstd::prelude::*;
use vstd::std_specs::iter::IteratorSpec;

verus! {

/// The decimal digit `d` (below ten).
pub open spec fn digit_char(d: nat) -> char {
    if d == 0 {
        '0'
    } else if d == 1 {
        '1'
    } else if d == 2 {
        '2'
    } else if d == 3 {
        '3'
    } else if d == 4 {
        '4'
    } else if d == 5 {
        '5'
    } else if d == 6 {
        '6'
    } else if d == 7 {
        '7'
    } else if d == 8 {
        '8'
    } else {
        '9'
    }
}

/// Decimal notation of `n`, without leading zeros.
pub open spec fn decimal(n: nat) -> Seq<char>
    decreases n,
{
    if n < 10 {
        seq![digit_char(n)]
    } else {
        decimal(n / 10).push(digit_char(n % 10))
    }
}

/// Decimal notation of `n`, with a minus sign when negative.
pub open spec fn signed_decimal(n: int) -> Seq<char> {
    if n < 0 {
        seq!['-'] + decimal((-n) as nat)
    } else {
        decimal(n as nat)
    }
}

/// Relies on std's String::push: the character is added at the end.
#[verifier::external_body]
pub(crate) fn push_char(s: &mut String, c: char)
    ensures
        final(s)@ == old(s)@.push(c),
{
    s.push(c)
}

fn digit(d: u64) -> (r: char)
    requires
        d < 10,
    ensures
        r == digit_char(d as nat),
{
    match d {
        0 => '0',
        1 => '1',
        2 => '2',
        3 => '3',
        4 => '4',
        5 => '5',
        6 => '6',
        7 => '7',
        8 => '8',
        _ => '9',
    }
}

/// Appends the decimal notation of `n` to `s`.
pub fn push_decimal(s: &mut String, n: u64)
    ensures
        final(s)@ == old(s)@ + decimal(n as nat),
    decreases n,
{
    if n >= 10 {
        push_decimal(s, n / 10);
    }
    push_char(s, digit(n % 10));
    assert(s@ =~= old(s)@ + decimal(n as nat));
}

/// Appends the signed decimal notation of `n` to `s`.
pub fn push_signed(s: &mut String, n: i32)
    ensures
        final(s)@ == old(s)@ + signed_decimal(n as int),
{
    if n < 0 {
        push_char(s, '-');
        let m: i64 = n as i64;
        push_decimal(s, (-m) as u64);
        assert(s@ =~= old(s)@ + signed_decimal(n as int));
    } else {
        push_decimal(s, n as u64);
    }
}

/// The decimal notation of `n`.
pub fn decimal_string(n: u64) -> (r: String)
    ensures
        r@ == decimal(n as nat),
{
    let mut s = String::new();
    push_decimal(&mut s, n);
    assert(s@ =~= decimal(n as nat));
    s
}

/// The age label of something `diff` seconds old, in the largest unit
/// (seconds, minutes, hours, days, weeks) that fits.
pub open spec fn age_label(diff: nat) -> Seq<char> {
    if diff < 60 {
        decimal(diff) + " seconds ago"@
    } else if diff < 3600 {
        decimal(diff / 60) + " minutes ago"@
    } else if diff < 86400 {
        decimal(diff / 3600) + " hours ago"@
    } else if diff < 604800 {
        decimal(diff / 86400) + " days ago"@
    } else {
        decimal(diff / 604800) + " weeks ago"@
    }
}

/// Seconds from `epoch_time` to `now`; 0 for a time after `now`.
pub open spec fn elapsed(now: u64, epoch_time: u64) -> nat {
    if now >= epoch_time {
        (now - epoch_time) as nat
    } else {
        0
    }
}

/// The age label of `epoch_time` (seconds since the epoch) seen at `now`.
pub fn time_ago_at(now: u64, epoch_time: u64) -> (r: String)
    ensures
        r@ == age_label(elapsed(now, epoch_time)),
{
    let diff: u64 = if now >= epoch_time { now - epoch_time } else { 0 };
    let mut s = String::new();
    if diff < 60 {
        push_decimal(&mut s, diff);
        s.append(" seconds ago");
    } else if diff < 3600 {
        push_decimal(&mut s, diff / 60);
        s.append(" minutes ago");
    } else if diff < 86400 {
        push_decimal(&mut s, diff / 3600);
        s.append(" hours ago");
    } else if diff < 604800 {
        push_decimal(&mut s, diff / 86400);
        s.append(" days ago");
    } else {
        push_decimal(&mut s, diff / 604800);
        s.append(" weeks ago");
    }
    assert(s@ =~= age_label(elapsed(now, epoch_time)));
    s
}

/// The age label of `epoch_time` seen at the current time.
pub fn time_ago(epoch_time: u64) -> (r: String)
    ensures
        exists|t: u64| r@ == age_label(elapsed(t, epoch_time)),
{
    time_ago_at(now(), epoch_time)
}

/// What html_escape::decode_html_entities makes of a text.
pub uninterp spec fn entities_decoded(s: Seq<char>) -> Seq<char>;


/// Relies on html_escape::decode_html_entities: the text with its
/// character references decoded, a function of the text alone.
#[verifier::external_body]
fn decode_entities(text: &str) -> (r: String)
    ensures
        r@ == entities_decoded(text@),
{
    html_escape::decode_html_entities(text).into_owned()
}

/// Whether `c` has the Unicode White_Space property.
pub open spec fn is_white_space(c: char) -> bool {
    let u = c as u32;
    ||| 0x9 <= u <= 0xd
    ||| u == 0x20
    ||| u == 0x85
    ||| u == 0xa0
    ||| u == 0x1680
    ||| 0x2000 <= u <= 0x200a
    ||| u == 0x2028
    ||| u == 0x2029
    ||| u == 0x202f
    ||| u == 0x205f
    ||| u == 0x3000
}

fn white_space(c: char) -> (r: bool)
    ensures
        r == is_white_space(c),
{
    let u = c as u32;
    (0x9 <= u && u <= 0xd) || u == 0x20 || u == 0x85 || u == 0xa0 || u == 0x1680 || (0x2000 <= u
        && u <= 0x200a) || u == 0x2028 || u == 0x2029 || u == 0x202f || u == 0x205f || u == 0x3000
}

/// The text without its leading white space.
pub open spec fn trim_start(s: Seq<char>) -> Seq<char>
    decreases s.len(),
{
    if s.len() > 0 && is_white_space(s[0]) {
        trim_start(s.skip(1))
    } else {
        s
    }
}

/// The text without its trailing white space.
pub open spec fn trim_end(s: Seq<char>) -> Seq<char>
    decreases s.len(),
{
    if s.len() > 0 && is_white_space(s.last()) {
        trim_end(s.drop_last())
    } else {
        s
    }
}

/// The text without leading and trailing white space, as str::trim
/// leaves it.
pub open spec fn trimmed(s: Seq<char>) -> Seq<char> {
    trim_end(trim_start(s))
}

/// The text without leading and trailing white space.
pub fn trim_text(text: &str) -> (r: String)
    ensures
        r@ == trimmed(text@),
{
    let cs = chars_of(text);
    let n = cs.len();
    let mut i: usize = 0;
    assert(cs@.skip(0) =~= cs@);
    while i < n && white_space(cs[i])
        invariant
            i <= n == cs@.len(),
            trim_start(cs@) == trim_start(cs@.skip(i as int)),
        decreases n - i,
    {
        assert(cs@.skip(i as int).skip(1) =~= cs@.skip(i + 1));
        i += 1;
    }
    let ghost front = cs@.skip(i as int);
    assert(trim_start(cs@) == front);
    let mut j: usize = n;
    assert(front =~= cs@.subrange(i as int, n as int));
    while j > i && white_space(cs[j - 1])
        invariant
            i <= j <= n == cs@.len(),
            trim_end(front) == trim_end(cs@.subrange(i as int, j as int)),
        decreases j,
    {
        assert(cs@.subrange(i as int, j as int).drop_last() =~= cs@.subrange(i as int, j - 1));
        j -= 1;
    }
    let ghost kept = cs@.subrange(i as int, j as int);
    assert(trim_end(kept) == kept);
    let mut out = String::new();
    let mut k: usize = i;
    while k < j
        invariant
            i <= k <= j <= n == cs@.len(),
            out@ == cs@.subrange(i as int, k as int),
        decreases j - k,
    {
        push_char(&mut out, cs[k]);
        k += 1;
        assert(out@ =~= cs@.subrange(i as int, k as int));
    }
    assert(out@ =~= trimmed(text@));
    out
}

/// The text with every `<p>` replaced by two line breaks.
pub open spec fn paragraph_breaks(s: Seq<char>) -> Seq<char>
    decreases s.len(),
{
    if s.len() == 0 {
        s
    } else if s.len() >= 3 && s[0] == '<' && s[1] == 'p' && s[2] == '>' {
        seq!['\n', '\n'] + paragraph_breaks(s.skip(3))
    } else {
        seq![s[0]] + paragraph_breaks(s.skip(1))
    }
}

/// The characters of `s` outside markup: `<` opens a tag, `>` closes
/// one, both are dropped with all that stands between them; `in_tag`
/// tells whether a tag is open where `s` starts.
pub open spec fn strip_tags(s: Seq<char>, in_tag: bool) -> Seq<char>
    decreases s.len(),
{
    if s.len() == 0 {
        s
    } else if s[0] == '<' {
        strip_tags(s.skip(1), true)
    } else if s[0] == '>' {
        strip_tags(s.skip(1), false)
    } else if in_tag {
        strip_tags(s.skip(1), true)
    } else {
        seq![s[0]] + strip_tags(s.skip(1), false)
    }
}

/// The characters of a text.
pub fn chars_of(s: &str) -> (r: Vec<char>)
    ensures
        r@ == s@,
{
    broadcast use vstd::string::group_string_axioms;

    let mut out: Vec<char> = Vec::new();
    let mut it = s.chars();
    let ghost whole = s@;
    loop
        invariant
            it.obeys_prophetic_iter_laws(),
            whole == s@,
            out@ + it.remaining() == whole,
        decreases whole.len() - out@.len(),
    {
        match it.next() {
            Some(c) => {
                out.push(c);
                assert(out@ + it.remaining() =~= whole);
            },
            None => {
                assert(out@ =~= whole);
                return out;
            },
        }
    }
}

/// The decoded text of a comment with `<p>` turned into line breaks and
/// all other markup removed.
pub fn clean_markup(decoded: &str) -> (r: String)
    ensures
        r@ == strip_tags(paragraph_breaks(decoded@), false),
{
    let cs = chars_of(decoded);
    let mut broken: Vec<char> = Vec::new();
    let mut i: usize = 0;
    assert(cs@.skip(0) =~= cs@);
    assert(broken@ + cs@ =~= cs@);
    while i < cs.len()
        invariant
            i <= cs@.len(),
            cs@ == decoded@,
            paragraph_breaks(cs@) == broken@ + paragraph_breaks(cs@.skip(i as int)),
        decreases cs@.len() - i,
    {
        let ghost rest = cs@.skip(i as int);
        if cs.len() - i > 2 && cs[i] == '<' && cs[i + 1] == 'p' && cs[i + 2] == '>' {
            broken.push('\n');
            broken.push('\n');
            assert(rest.skip(3) =~= cs@.skip(i + 3));
            i += 3;
        } else {
            broken.push(cs[i]);
            assert(rest.skip(1) =~= cs@.skip(i + 1));
            i += 1;
        }
        assert(paragraph_breaks(cs@) =~= broken@ + paragraph_breaks(cs@.skip(i as int)));
    }
    assert(cs@.skip(i as int) =~= Seq::<char>::empty());
    let ghost spaced = broken@;
    let mut out = String::new();
    let mut in_tag = false;
    let mut j: usize = 0;
    assert(spaced.skip(0) =~= spaced);
    assert(out@ + strip_tags(spaced, false) =~= strip_tags(spaced, false));
    while j < broken.len()
        invariant
            j <= broken@.len(),
            spaced == broken@,
            strip_tags(spaced, false) == out@ + strip_tags(spaced.skip(j as int), in_tag),
        decreases broken@.len() - j,
    {
        let c = broken[j];
        assert(spaced.skip(j as int).skip(1) =~= spaced.skip(j + 1));
        if c == '<' {
            in_tag = true;
        } else if c == '>' {
            in_tag = false;
        } else if !in_tag {
            push_char(&mut out, c);
        }
        j += 1;
        assert(strip_tags(spaced, false) =~= out@ + strip_tags(spaced.skip(j as int), in_tag));
    }
    assert(spaced.skip(j as int) =~= Seq::<char>::empty());
    assert(paragraph_breaks(decoded@) == spaced);
    out
}

/// The plain text of a comment body: entities decoded, `<p>` turned into
/// line breaks, other markup removed, surrounding whitespace trimmed.
pub fn decode_html(text: &str) -> (r: String)
    ensures
        r@ == trimmed(strip_tags(paragraph_breaks(entities_decoded(text@)), false)),
{
    let decoded = decode_entities(text);
    let clean = clean_markup(decoded.as_str());
    trim_text(clean.as_str())
}

/// The three lines that show a story: title and author; score, comment
/// count and age; link.
pub open spec fn story_text(item: HNCLIItem) -> Seq<char> {
    let comments = match item.comments {
        Some(n) => signed_decimal(n as int) + " comments"@,
        None => Seq::empty(),
    };
    item.title@ + " by "@ + item.author@ + "\n["@ + signed_decimal(item.score as int) + " points] - "@
        + comments + " - "@ + item.time_ago@ + "\n-> "@ + item.url@
}

impl HNCLIItem {
    /// The story as three lines of text.
    pub fn to_string(&self) -> (r: String)
        ensures
            r@ == story_text(*self),
    {
        let mut s = String::new();
        s.append(self.title.as_str());
        s.append(" by ");
        s.append(self.author.as_str());
        s.append("\n[");
        push_signed(&mut s, self.score);
        s.append(" points] - ");
        match self.comments {
            Some(n) => {
                push_signed(&mut s, n);
                s.append(" comments");
            },
            None => {},
        }
        s.append(" - ");
        s.append(self.time_ago.as_str());
        s.append("\n-> ");
        s.append(self.url.as_str());
        assert(s@ =~= story_text(*self));
        s
    }
}

/// The spinner glyph of frame `i` (below ten).
pub open spec fn spinner_glyph(i: int) -> Seq<char> {
    if i == 0 {
        "⠋"@
    } else if i == 1 {
        "⠙"@
    } else if i == 2 {
        "⠹"@
    } else if i == 3 {
        "⠸"@
    } else if i == 4 {
        "⠼"@
    } else if i == 5 {
        "⠴"@
    } else if i == 6 {
        "⠦"@
    } else if i == 7 {
        "⠧"@
    } else if i == 8 {
        "⠇"@
    } else {
        "⠏"@
    }
}

/// The spinner glyph for a tick; the ten frames repeat.
pub fn spinner_frame(tick: usize) -> (r: &'static str)
    ensures
        r@ == spinner_glyph(tick as int % 10),
{
    match tick % 10 {
        0 => "⠋",
        1 => "⠙",
        2 => "⠹",
        3 => "⠸",
        4 => "⠼",
        5 => "⠴",
        6 => "⠦",
        7 => "⠧",
        8 => "⠇",
        _ => "⠏",
    }
}

/// For each level of `path`, starting in the forest `level`, whether the
/// node on the path is the last of its siblings; the walk stops below a
/// node that is missing or not expanded.
pub open spec fn guides_from(level: Seq<Node>, path: Seq<usize>) -> Seq<bool>
    decreases path.len(),
{
    if path.len() == 0 {
        Seq::empty()
    } else {
        let is_last = path[0] + 1 >= level.len();
        if path.len() > 1 && path[0] < level.len() && level[path[0] as int].state is Expanded {
            seq![is_last] + guides_from(level[path[0] as int].state->0, path.drop_first())
        } else {
            seq![is_last]
        }
    }
}

/// Which ancestors on `path` (and the node itself) are last among their
/// siblings, for drawing tree guides.
pub fn branch_guides(app: &App, path: &[usize]) -> (r: Vec<bool>)
    ensures
        r@ == guides_from(nodes_of(app.comments@), path@),
{
    let mut guides: Vec<bool> = Vec::new();
    let mut level: &Vec<Comment> = &app.comments;
    let mut depth: usize = 0;
    assert(path@.skip(0) =~= path@);
    assert(guides@ + guides_from(nodes_of(level@), path@) =~= guides_from(nodes_of(level@), path@));
    while depth < path.len()
        invariant
            depth <= path@.len(),
            guides_from(nodes_of(app.comments@), path@) == guides@ + guides_from(
                nodes_of(level@),
                path@.skip(depth as int),
            ),
        decreases path@.len() - depth,
    {
        let idx = path[depth];
        let ghost q = path@.skip(depth as int);
        proof {
            crate::tree::lemma_nodes_of_len(level@);
            assert(q.drop_first() =~= path@.skip(depth + 1));
        }
        let is_last = level.len() == 0 || idx >= level.len() - 1;
        guides.push(is_last);
        if depth + 1 == path.len() {
            assert(path@.skip(depth + 1) =~= Seq::<usize>::empty());
            assert(guides_from(nodes_of(app.comments@), path@) =~= guides@);
            return guides;
        }
        if idx < level.len() {
            proof {
                crate::tree::lemma_nodes_of_index(level@, idx as int);
            }
            match &level[idx].state {
                CommentState::Expanded { children } => {
                    level = children;
                },
                _ => {
                    assert(guides_from(nodes_of(app.comments@), path@) =~= guides@);
                    return guides;
                },
            }
        } else {
            assert(guides_from(nodes_of(app.comments@), path@) =~= guides@);
            return guides;
        }
        depth += 1;
        assert(guides_from(nodes_of(app.comments@), path@) =~= guides@ + guides_from(
            nodes_of(level@),
            path@.skip(depth as int),
        ));
    }
    assert(guides_from(nodes_of(app.comments@), path@) =~= guides@);
    guides
}

/// One column of a tree guide: a bar while more siblings follow.
pub open spec fn guide_column(is_last: bool) -> Seq<char> {
    if is_last {
        "  "@
    } else {
        "│ "@
    }
}

/// The guide columns of `gs`.
pub open spec fn guide_columns(gs: Seq<bool>) -> Seq<char>
    decreases gs.len(),
{
    if gs.len() == 0 {
        Seq::empty()
    } else {
        guide_columns(gs.drop_last()) + guide_column(gs.last())
    }
}

/// The prefix drawn before a comment line: one column per level, the last
/// one an elbow when asked for, then two spaces; empty without levels.
pub open spec fn guide_prefix(gs: Seq<bool>, include_elbow: bool) -> Seq<char> {
    if gs.len() == 0 {
        Seq::empty()
    } else {
        let last = if include_elbow {
            if gs.last() {
                "└─"@
            } else {
                "├─"@
            }
        } else {
            guide_column(gs.last())
        };
        guide_columns(gs.drop_last()) + last + "  "@
    }
}

/// Draws the guide prefix of `guides`.
pub fn guides_to_prefix(guides: &[bool], include_elbow: bool) -> (r: String)
    ensures
        r@ == guide_prefix(guides@, include_elbow),
{
    let mut prefix = String::new();
    if guides.len() == 0 {
        return prefix;
    }
    let n = guides.len() - 1;
    let mut i: usize = 0;
    while i < n
        invariant
            i <= n,
            n + 1 == guides@.len(),
            prefix@ == guide_columns(guides@.take(i as int)),
        decreases n - i,
    {
        if guides[i] {
            prefix.append("  ");
        } else {
            prefix.append("│ ");
        }
        assert(guides@.take(i + 1).drop_last() =~= guides@.take(i as int));
        i += 1;
    }
    assert(guides@.take(n as int) =~= guides@.drop_last());
    if include_elbow {
        if guides[n] {
            prefix.append("└─");
        } else {
            prefix.append("├─");
        }
    } else {
        if guides[n] {
            prefix.append("  ");
        } else {
            prefix.append("│ ");
        }
    }
    prefix.append("  ");
    prefix
}

} // verus!
