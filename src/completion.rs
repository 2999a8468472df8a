//! Completion and hints for the interactive session: which words match what
//! has been typed, and the hint line listing them.
use vstd::prelude::*;

use crate::lexer::{is_unicode_space, unicode_space};
use crate::text::{count_string, decimal};

verus! {

/// A word that the interactive session offers for completion, with a note on
/// what it takes and gives.
pub struct KeywordInfo {
    pub name: String,
    pub annotation: Option<String>,
}

/// The words offered for completion, with their notes, in alphabetical order.
pub open spec fn keyword_table() -> Seq<(Seq<char>, Seq<char>)> {
    seq![
        ("#ta"@, "(10)"@),
        ("ditas"@, "(num num -> bool)"@),
        ("ditasgata"@, "(num num -> bool)"@),
        ("fanitas"@, "(list -> list)"@),
        ("fityes"@, "(num num -> bool)"@),
        ("fityesgata"@, "(num num -> bool)"@),
        ("ga"@, "(false)"@),
        ("gakas"@, "(symbol value -> value)"@),
        ("gakasdenu"@, "(symbol (params) body -> function)"@),
        ("gatas"@, "(value value -> bool)"@),
        ("kenus"@, "(bool bool -> bool)"@),
        ("matyes"@, "(num num -> num)"@),
        ("me"@, "(true)"@),
        ("nitas"@, "(num num -> num)"@),
        ("nobu"@, "(bool then else -> value)"@),
        ("ra"@, "(2)"@),
        ("rakas"@, "(list -> num)"@),
        ("re"@, "(4)"@),
        ("ri"@, "(5)"@),
        ("ritas"@, "(num num -> num)"@),
        ("ro"@, "(3)"@),
        ("ru"@, "(1)"@),
        ("rv"@, "(0)"@),
        ("rya"@, "(6)"@),
        ("rye"@, "(9)"@),
        ("ryo"@, "(8)"@),
        ("ryu"@, "(7)"@),
        ("sipus"@, "(value -> nil)"@),
        ("teses"@, "(bool bool -> bool)"@)
    ]
}

pub open spec fn keywords_view(k: Seq<KeywordInfo>) -> Seq<(Seq<char>, Option<Seq<char>>)> {
    k.map_values(|i: KeywordInfo| (i.name@, match i.annotation {
        Some(a) => Some(a@),
        None => None,
    }))
}

pub open spec fn table_view(t: Seq<(Seq<char>, Seq<char>)>) -> Seq<(Seq<char>, Option<Seq<char>>)> {
    t.map_values(|e: (Seq<char>, Seq<char>)| (e.0, Some(e.1)))
}

fn keyword(name: &str, annotation: &str) -> (r: KeywordInfo)
    ensures
        r.name@ == name@,
        r.annotation matches Some(a) && a@ == annotation@,
{
    KeywordInfo { name: String::from_str(name), annotation: Some(String::from_str(annotation)) }
}

/// The most candidates a hint lists.
pub const MAX_HINT_SUGGESTIONS: usize = 5;

/// Completion and hints for the interactive session.
pub struct SatukitanHelper {
    pub keywords: Vec<KeywordInfo>,
}

/// Whether a character ends a word being completed.
pub open spec fn boundary(c: char) -> bool {
    unicode_space(c) || c == '(' || c == ')' || c == '[' || c == ']' || c == '{' || c == '}' || c
        == '"'
}

pub fn is_boundary(c: char) -> (r: bool)
    ensures
        r == boundary(c),
{
    is_unicode_space(c) || c == '(' || c == ')' || c == '[' || c == ']' || c == '{' || c == '}'
        || c == '"'
}

/// Where the word that ends at `pos` starts: just after the last boundary
/// before `pos`, or at the line's start.
pub open spec fn word_start(line: Seq<char>, pos: int) -> int
    decreases pos,
{
    if pos <= 0 {
        0
    } else if boundary(line[pos - 1]) {
        pos
    } else {
        word_start(line, pos - 1)
    }
}

/// The indices, below `n`, of the words that start with `fragment`, in order.
pub open spec fn matching(words: Seq<(Seq<char>, Option<Seq<char>>)>, fragment: Seq<char>, n: int) -> Seq<usize>
    decreases n,
{
    if n <= 0 {
        Seq::empty()
    } else if fragment.is_prefix_of(words[n - 1].0) {
        matching(words, fragment, n - 1).push((n - 1) as usize)
    } else {
        matching(words, fragment, n - 1)
    }
}

/// A word with its note appended.
pub open spec fn label(w: (Seq<char>, Option<Seq<char>>)) -> Seq<char> {
    match w.1 {
        Some(a) => w.0 + a,
        None => w.0,
    }
}

pub open spec fn header_color() -> Seq<char> {
    "\x1b[38;5;39m"@
}

pub open spec fn candidate_color() -> Seq<char> {
    "\x1b[38;5;214m"@
}

pub open spec fn divider_color() -> Seq<char> {
    "\x1b[38;5;240m"@
}

pub open spec fn reset() -> Seq<char> {
    "\x1b[0m"@
}

/// The listed candidates: each in the candidate color, after a divider
/// from the second on.
pub open spec fn listed(labels: Seq<Seq<char>>) -> Seq<char>
    decreases labels.len(),
{
    if labels.len() == 0 {
        Seq::empty()
    } else {
        let sep = if labels.len() > 1 {
            divider_color() + " | "@ + reset()
        } else {
            Seq::empty()
        };
        listed(labels.drop_last()) + sep + candidate_color() + labels.last() + reset()
    }
}

/// The hint shown for a fragment and the labels of the words it matches:
/// none when nothing matches or the one match is the fragment itself; else a
/// line listing at most five candidates and how many more there are.
pub open spec fn hint_text(fragment: Seq<char>, first_name: Seq<char>, labels: Seq<Seq<char>>) -> Option<Seq<char>> {
    if labels.len() == 0 || (labels.len() == 1 && first_name == fragment) {
        None
    } else {
        let shown = if labels.len() > 5 { labels.take(5) } else { labels };
        let more = if labels.len() > 5 {
            " "@ + divider_color() + "\u{2026} (+"@ + decimal(labels.len() - 5) + "\u{4ef6})"@ + reset()
        } else {
            Seq::empty()
        };
        Some("\n"@ + header_color() + "\u{5019}\u{88dc}:"@ + reset() + " "@ + listed(shown) + more)
    }
}

impl SatukitanHelper {
    /// A helper offering every word of `keyword_table`.
    pub fn new() -> (r: Self)
        ensures
            keywords_view(r.keywords@) == table_view(keyword_table()),
    {
        let mut t: Vec<KeywordInfo> = Vec::new();
    t.push(keyword("#ta", "(10)"));
    t.push(keyword("ditas", "(num num -> bool)"));
    t.push(keyword("ditasgata", "(num num -> bool)"));
    t.push(keyword("fanitas", "(list -> list)"));
    t.push(keyword("fityes", "(num num -> bool)"));
    t.push(keyword("fityesgata", "(num num -> bool)"));
    t.push(keyword("ga", "(false)"));
    t.push(keyword("gakas", "(symbol value -> value)"));
    t.push(keyword("gakasdenu", "(symbol (params) body -> function)"));
    t.push(keyword("gatas", "(value value -> bool)"));
    t.push(keyword("kenus", "(bool bool -> bool)"));
    t.push(keyword("matyes", "(num num -> num)"));
    t.push(keyword("me", "(true)"));
    t.push(keyword("nitas", "(num num -> num)"));
    t.push(keyword("nobu", "(bool then else -> value)"));
    t.push(keyword("ra", "(2)"));
    t.push(keyword("rakas", "(list -> num)"));
    t.push(keyword("re", "(4)"));
    t.push(keyword("ri", "(5)"));
    t.push(keyword("ritas", "(num num -> num)"));
    t.push(keyword("ro", "(3)"));
    t.push(keyword("ru", "(1)"));
    t.push(keyword("rv", "(0)"));
    t.push(keyword("rya", "(6)"));
    t.push(keyword("rye", "(9)"));
    t.push(keyword("ryo", "(8)"));
    t.push(keyword("ryu", "(7)"));
    t.push(keyword("sipus", "(value -> nil)"));
    t.push(keyword("teses", "(bool bool -> bool)"));
        proof {
            assert(keywords_view(t@) =~= table_view(keyword_table()));
        }
        SatukitanHelper { keywords: t }
    }

    /// Where the word ending at `pos` of `line` starts.
    pub fn fragment_start(&self, line: &Vec<char>, pos: usize) -> (r: usize)
        requires
            pos <= line.len(),
        ensures
            r == word_start(line@, pos as int),
            r <= pos,
    {
        let mut p = pos;
        while p > 0 && !is_boundary(line[p - 1])
            invariant
                p <= pos <= line.len(),
                word_start(line@, p as int) == word_start(line@, pos as int),
            decreases p,
        {
            p -= 1;
        }
        p
    }

    /// The indices of the words that start with `fragment`, in table order.
    pub fn matching_keywords(&self, fragment: &Vec<char>) -> (r: Vec<usize>)
        ensures
            r@ == matching(keywords_view(self.keywords@), fragment@, self.keywords.len() as int),
    {
        let ghost kv = keywords_view(self.keywords@);
        let mut r: Vec<usize> = Vec::new();
        let mut i: usize = 0;
        while i < self.keywords.len()
            invariant
                i <= self.keywords.len(),
                kv == keywords_view(self.keywords@),
                r@ == matching(kv, fragment@, i as int),
            decreases self.keywords.len() - i,
        {
            let name = &self.keywords[i].name;
            let ghost nm = kv[i as int].0;
            let nc = crate::text::chars_of(name.as_str());
            let mut ok = fragment.len() <= nc.len();
            if ok {
                let mut j: usize = 0;
                while j < fragment.len()
                    invariant
                        j <= fragment.len() <= nc.len(),
                        nc@ == nm,
                        ok == forall|k: int| 0 <= k < j ==> fragment@[k] == nm[k],
                    decreases fragment.len() - j,
                {
                    if fragment[j] != nc[j] {
                        ok = false;
                    }
                    j += 1;
                }
            }
            if ok {
                r.push(i);
            }
            i += 1;
        }
        r
    }

    /// A word with its note appended.
    pub fn label_for(&self, info: &KeywordInfo) -> (r: String)
        ensures
            r@ == label((info.name@, match info.annotation {
                Some(a) => Some(a@),
                None => None,
            })),
    {
        match &info.annotation {
            Some(a) => crate::text::concat(info.name.as_str(), a.as_str()),
            None => info.name.clone(),
        }
    }

    /// The hint for `fragment`, given the indices of the words it matches.
    pub fn format_hint(&self, fragment: &Vec<char>, matches: &Vec<usize>) -> (r: Option<String>)
        requires
            forall|i: int| 0 <= i < matches.len() ==> #[trigger] matches@[i] < self.keywords.len(),
        ensures
            match r {
                Some(h) => hint_text(fragment@, keywords_view(self.keywords@)[matches@[0] as int].0, match_labels(keywords_view(self.keywords@), matches@)) == Some(h@),
                None => hint_text(fragment@, if matches.len() > 0 { keywords_view(self.keywords@)[matches@[0] as int].0 } else { Seq::empty() }, match_labels(keywords_view(self.keywords@), matches@)) is None,
            },
    {
        let ghost kv = keywords_view(self.keywords@);
        let ghost labels = match_labels(kv, matches@);
        if matches.len() == 0 {
            return None;
        }
        let first = &self.keywords[matches[0]];
        let fc = crate::text::chars_of(first.name.as_str());
        if matches.len() == 1 && crate::text::same_chars(&fc, fragment) {
            return None;
        }
        let mut buffer = String::from_str("\n");
        buffer.append("\x1b[38;5;39m");
        buffer.append("\u{5019}\u{88dc}:");
        buffer.append("\x1b[0m");
        buffer.append(" ");
        let ghost head = buffer@;
        let shown = if matches.len() > MAX_HINT_SUGGESTIONS { MAX_HINT_SUGGESTIONS } else { matches.len() };
        let mut idx: usize = 0;
        while idx < shown
            invariant
                shown <= matches.len(),
                idx <= shown,
                kv == keywords_view(self.keywords@),
                labels == match_labels(kv, matches@),
                forall|i: int| 0 <= i < matches.len() ==> #[trigger] matches@[i] < self.keywords.len(),
                buffer@ == head + listed(labels.take(idx as int)),
            decreases shown - idx,
        {
            let ghost before = buffer@;
            if idx > 0 {
                buffer.append("\x1b[38;5;240m");
                buffer.append(" | ");
                buffer.append("\x1b[0m");
            }
            buffer.append("\x1b[38;5;214m");
            let info = &self.keywords[matches[idx]];
            let l = self.label_for(info);
            buffer.append(l.as_str());
            buffer.append("\x1b[0m");
            proof {
                assert(labels.take(idx + 1).drop_last() =~= labels.take(idx as int));
                assert(labels[idx as int] == l@);
                assert(buffer@ =~= head + listed(labels.take(idx + 1)));
            }
            idx += 1;
        }
        if matches.len() > MAX_HINT_SUGGESTIONS {
            let remaining = matches.len() - MAX_HINT_SUGGESTIONS;
            buffer.append(" ");
            buffer.append("\x1b[38;5;240m");
            buffer.append("\u{2026} (+");
            let n = count_string(remaining);
            buffer.append(n.as_str());
            buffer.append("\u{4ef6})");
            buffer.append("\x1b[0m");
        }
        proof {
            if matches.len() <= 5 {
                assert(labels.take(shown as int) =~= labels);
            }
        }
        Some(buffer)
    }
}

impl Default for SatukitanHelper {
    fn default() -> (r: Self)
        ensures
            keywords_view(r.keywords@) == table_view(keyword_table()),
    {
        SatukitanHelper::new()
    }
}

/// The labels of the words at the given indices.
pub open spec fn match_labels(words: Seq<(Seq<char>, Option<Seq<char>>)>, idx: Seq<usize>) -> Seq<Seq<char>> {
    idx.map_values(|i: usize| label(words[i as int]))
}

} // verus!
