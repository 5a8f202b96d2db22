//! The agent's memory: curated facts in `MEMORY.md` and a log for each day.

use crate::calendar::{date_string, day_before, is_date_of};
use crate::memory_writer::{daily_entry, daily_header, log_entry, log_header};
use crate::paths::{join, joined};
use crate::scan::{
    comes_before, contains_text, has_part, join_with, joined_with, law_joined_texts_are_found,
    law_parts_are_found, lemma_text_order, occurs_at, sections, split_text, text_less,
    trim_suffixes, without_suffixes, words, words_of,
};
use crate::split::{is_space, lemma_texts_push, texts, trim, trimmed};
use crate::text::{dec, decimal, str_eq};
use crate::version::opt_text;
use vstd::prelude::*;
use vstd::string::*;

verus! {

/// What `str::to_lowercase` makes of a text.
pub uninterp spec fn lowercase(s: Seq<char>) -> Seq<char>;

/// `str::to_lowercase` on a text.
#[verifier::external_body]
fn to_lower(s: &str) -> (r: String)
    ensures
        r@ == lowercase(s@),
{
    s.to_lowercase()
}

/// The most results that a search shows.
pub const MAX_SEARCH_RESULTS: usize = 10;

/// A section of a memory file that a search found.
pub struct SearchHit {
    pub score: usize,
    pub file: String,
    pub section: String,
}

/// The content of a `SearchHit`.
pub ghost struct Hit {
    pub score: nat,
    pub file: Seq<char>,
    pub section: Seq<char>,
}

impl View for SearchHit {
    type V = Hit;

    open spec fn view(&self) -> Hit {
        Hit { score: self.score as nat, file: self.file@, section: self.section@ }
    }
}

/// The contents of a list of hits.
pub open spec fn hit_views(v: Seq<SearchHit>) -> Seq<Hit> {
    Seq::new(v.len(), |i: int| v[i]@)
}

/// Whether a file name has the extension of memory files.
pub open spec fn is_memory_file(name: Seq<char>) -> bool {
    name.len() > 3 && name.skip(name.len() - 3) == ".md"@
}

/// The number of search terms that stand in a text.
pub open spec fn terms_in(text: Seq<char>, terms: Seq<Seq<char>>) -> nat
    decreases terms.len(),
{
    if terms.len() == 0 {
        0
    } else {
        terms_in(text, terms.drop_last()) + if contains_text(text, terms.last()) {
            1nat
        } else {
            0nat
        }
    }
}

/// What a search finds in the sections of a file.
pub open spec fn section_hits(
    file: Seq<char>,
    parts: Seq<Seq<char>>,
    terms: Seq<Seq<char>>,
) -> Seq<Hit>
    decreases parts.len(),
{
    if parts.len() == 0 {
        Seq::empty()
    } else {
        let before = section_hits(file, parts.drop_last(), terms);
        let section = trimmed(parts.last());
        let score = terms_in(lowercase(section), terms);
        if section.len() > 0 && score > 0 {
            before.push(Hit { score, file, section })
        } else {
            before
        }
    }
}

/// What a search finds in all files.
pub open spec fn all_hits(
    files: Seq<(Seq<char>, Seq<char>)>,
    terms: Seq<Seq<char>>,
) -> Seq<Hit>
    decreases files.len(),
{
    if files.len() == 0 {
        Seq::empty()
    } else {
        let before = all_hits(files.drop_last(), terms);
        let f = files.last();
        if is_memory_file(f.0) {
            before + section_hits(f.0, sections(f.1, "\n\n"@), terms)
        } else {
            before
        }
    }
}

/// Whether one file comes before another: `MEMORY.md` before any other, the
/// others by name.
pub open spec fn file_before(a: Seq<char>, b: Seq<char>) -> bool {
    if a == "MEMORY.md"@ || b == "MEMORY.md"@ {
        b != "MEMORY.md"@
    } else {
        text_less(a, b)
    }
}

/// `a` is shown behind `b`: it scores less, or the same in a later file.
pub open spec fn ranks_behind(a: Hit, b: Hit) -> bool {
    a.score < b.score || (a.score == b.score && file_before(b.file, a.file))
}

/// Where a hit goes in a ranking: behind every hit that does not rank behind it.
pub open spec fn rank_position(ranking: Seq<Hit>, hit: Hit) -> int
    decreases ranking.len(),
{
    if ranking.len() == 0 || !ranks_behind(ranking.last(), hit) {
        ranking.len() as int
    } else {
        rank_position(ranking.drop_last(), hit)
    }
}

/// The hits by rank, those of equal rank in their order.
pub open spec fn ranked(hits: Seq<Hit>) -> Seq<Hit>
    decreases hits.len(),
{
    if hits.len() == 0 {
        Seq::empty()
    } else {
        let before = ranked(hits.drop_last());
        before.insert(rank_position(before, hits.last()), hits.last())
    }
}

/// The hits that are shown.
pub open spec fn shown(hits: Seq<Hit>) -> Seq<Hit> {
    let r = ranked(hits);
    if r.len() <= MAX_SEARCH_RESULTS {
        r
    } else {
        r.take(MAX_SEARCH_RESULTS as int)
    }
}

/// The text of the hits that are shown.
pub open spec fn hits_text(hits: Seq<Hit>) -> Seq<char>
    decreases hits.len(),
{
    if hits.len() == 0 {
        Seq::empty()
    } else {
        let h = hits.last();
        hits_text(hits.drop_last()) + "**["@ + h.file + "]** (score: "@ + dec(h.score) + ")\n"@
            + h.section + "\n\n---\n\n"@
    }
}

/// The answer to a search in the given files, or in none where there is no
/// memory directory.
pub open spec fn search_answer(
    query: Seq<char>,
    files: Option<Seq<(Seq<char>, Seq<char>)>>,
) -> Seq<char> {
    let terms = words(lowercase(query));
    match files {
        None => "Memory directory is empty — no memory files found."@,
        Some(f) => if terms.len() == 0 {
            "Empty search query."@
        } else {
            search_report(query, all_hits(f, terms))
        },
    }
}

/// What is said of the hits of a search.
pub open spec fn search_report(query: Seq<char>, hits: Seq<Hit>) -> Seq<char> {
    if hits.len() == 0 {
        "No results found for: "@ + query
    } else {
        without_suffixes(
            "Memory search results for \""@ + query + "\"\n\n"@ + hits_text(shown(hits)),
            "\n\n---\n\n"@,
        )
    }
}

/// Names and contents of files.
pub open spec fn file_views(v: Seq<(String, String)>) -> Seq<(Seq<char>, Seq<char>)> {
    Seq::new(v.len(), |i: int| (v[i].0@, v[i].1@))
}

/// Whether a file of the memory directory is a memory file.
pub fn has_memory_extension(name: &str) -> (b: bool)
    ensures
        b == is_memory_file(name@),
{
    let n: usize = name.unicode_len();
    if n > 3 {
        let end = name.substring_char(n - 3, n);
        assert(end@ =~= name@.skip(n - 3));
        str_eq(end, ".md")
    } else {
        false
    }
}

/// Counts the search terms that stand in a text.
pub fn count_terms(text: &str, terms: &Vec<String>) -> (n: usize)
    ensures
        n == terms_in(text@, texts(terms@)),
        n <= terms@.len(),
{
    let ghost t = texts(terms@);
    let mut n: usize = 0;
    let mut i: usize = 0;
    while i < terms.len()
        invariant
            i <= terms@.len(),
            n <= i,
            t == texts(terms@),
            n == terms_in(text@, t.take(i as int)),
        decreases terms@.len() - i,
    {
        assert(t.take(i + 1).drop_last() =~= t.take(i as int));
        if has_part(text, terms[i].as_str()) {
            n += 1;
        }
        i += 1;
    }
    assert(t.take(terms@.len() as int) =~= t);
    n
}

/// Appends what a search finds in one file.
fn search_file(hits: &mut Vec<SearchHit>, file: &str, content: &str, terms: &Vec<String>)
    ensures
        hit_views(final(hits)@) == hit_views(old(hits)@) + section_hits(
            file@,
            sections(content@, "\n\n"@),
            texts(terms@),
        ),
{
    proof {
        reveal_strlit("\n\n");
    }
    let parts = split_text(content, "\n\n");
    let ghost p = texts(parts@);
    let ghost t = texts(terms@);
    let mut i: usize = 0;
    assert(hit_views(hits@) =~= hit_views(old(hits)@) + section_hits(file@, p.take(0), t));
    while i < parts.len()
        invariant
            i <= parts@.len(),
            p == texts(parts@),
            t == texts(terms@),
            hit_views(hits@) == hit_views(old(hits)@) + section_hits(
                file@,
                p.take(i as int),
                t,
            ),
        decreases parts@.len() - i,
    {
        assert(p.take(i + 1).drop_last() =~= p.take(i as int));
        let section = trim(parts[i].as_str());
        let lower = to_lower(section.as_str());
        let score: usize = count_terms(lower.as_str(), terms);
        let ghost before = hit_views(hits@);
        if section.as_str().unicode_len() > 0 && score > 0 {
            let hit = SearchHit { score, file: file.to_owned(), section };
            hits.push(hit);
            assert(hit_views(hits@) =~= before.push(hit@));
        }
        assert(hit_views(hits@) =~= hit_views(old(hits)@) + section_hits(
            file@,
            p.take(i + 1),
            t,
        ));
        i += 1;
    }
    assert(p.take(parts@.len() as int) =~= p);
}

proof fn lemma_rank_prefix(ranking: Seq<Hit>, hit: Hit, n: int)
    requires
        0 <= n <= ranking.len(),
        forall|i: int| n <= i < ranking.len() ==> ranks_behind(#[trigger] ranking[i], hit),
    ensures
        rank_position(ranking, hit) == rank_position(ranking.take(n), hit),
    decreases ranking.len(),
{
    if n < ranking.len() {
        let d = ranking.drop_last();
        assert(ranks_behind(ranking[ranking.len() - 1], hit));
        assert forall|i: int| n <= i < d.len() implies ranks_behind(#[trigger] d[i], hit) by {
            assert(d[i] == ranking[i]);
        }
        lemma_rank_prefix(d, hit, n);
        assert(d.take(n) =~= ranking.take(n));
    } else {
        assert(ranking.take(n) =~= ranking);
    }
}

/// Whether one file comes before another.
fn goes_before(a: &str, b: &str) -> (r: bool)
    ensures
        r == file_before(a@, b@),
{
    if str_eq(a, "MEMORY.md") || str_eq(b, "MEMORY.md") {
        !str_eq(b, "MEMORY.md")
    } else {
        comes_before(a, b)
    }
}

/// Puts a hit into its place in a ranking.
fn insert_ranked(ranking: &mut Vec<SearchHit>, hit: SearchHit)
    ensures
        hit_views(final(ranking)@) == hit_views(old(ranking)@).insert(
            rank_position(hit_views(old(ranking)@), hit@),
            hit@,
        ),
{
    let ghost r = hit_views(ranking@);
    let mut at: usize = ranking.len();
    while at > 0
        invariant_except_break
            at <= ranking@.len(),
            r == hit_views(ranking@),
            ranking@ == old(ranking)@,
            forall|i: int| at <= i < r.len() ==> ranks_behind(#[trigger] r[i], hit@),
        ensures
            at <= ranking@.len(),
            ranking@ == old(ranking)@,
            r == hit_views(ranking@),
            forall|i: int| at <= i < r.len() ==> ranks_behind(#[trigger] r[i], hit@),
            at == 0 || !ranks_behind(r[at - 1], hit@),
        decreases at,
    {
        let a = &ranking[at - 1];
        assert(r[at - 1] == ranking@[at - 1]@);
        let behind = a.score < hit.score || (a.score == hit.score && goes_before(
            hit.file.as_str(),
            a.file.as_str(),
        ));
        if !behind {
            break;
        }
        at -= 1;
    }
    proof {
        lemma_rank_prefix(r, hit@, at as int);
        if at > 0 {
            assert(r.take(at as int).last() == r[at - 1]);
        }
    }
    ranking.insert(at, hit);
    assert(hit_views(ranking@) =~= r.insert(at as int, hit@));
}

/// The hits by rank.
fn rank_hits(hits: Vec<SearchHit>) -> (r: Vec<SearchHit>)
    ensures
        hit_views(r@) == ranked(hit_views(hits@)),
{
    let ghost h = hit_views(hits@);
    let n: usize = hits.len();
    let mut rest = hits;
    let mut r: Vec<SearchHit> = Vec::new();
    let mut i: usize = 0;
    assert(hit_views(r@) =~= ranked(h.take(0)));
    while i < n
        invariant
            i <= n,
            n == h.len(),
            rest@.len() == n - i,
            hit_views(rest@) =~= h.skip(i as int),
            hit_views(r@) == ranked(h.take(i as int)),
        decreases n - i,
    {
        assert(h.take(i + 1).drop_last() =~= h.take(i as int));
        assert(hit_views(rest@)[0] == rest@[0]@);
        let ghost before = rest@;
        let hit = rest.remove(0);
        assert(hit_views(rest@) =~= hit_views(before).drop_first());
        insert_ranked(&mut r, hit);
        i += 1;
    }
    assert(h.take(n as int) =~= h);
    r
}

/// Reports the hits of a search, the best first.
pub fn report_hits(query: &str, hits: Vec<SearchHit>) -> (r: String)
    ensures
        r@ == search_report(query@, hit_views(hits@)),
{
    assert(hit_views(hits@).len() == hits@.len());
    if hits.len() == 0 {
        let mut r = "No results found for: ".to_owned();
        r.append(query);
        return r;
    }
    let ghost h = hit_views(hits@);
    let mut ranking = rank_hits(hits);
    assert(hit_views(ranking@).len() == ranking@.len());
    if ranking.len() > MAX_SEARCH_RESULTS {
        let ghost before = ranking@;
        ranking.truncate(MAX_SEARCH_RESULTS);
        assert(hit_views(ranking@) =~= hit_views(before).take(MAX_SEARCH_RESULTS as int));
    }
    let ghost s = hit_views(ranking@);
    let mut output = "Memory search results for \"".to_owned();
    output.append(query);
    output.append("\"\n\n");
    let ghost head = output@;
    let mut k: usize = 0;
    assert(output@ =~= head + hits_text(s.take(0)));
    while k < ranking.len()
        invariant
            k <= ranking@.len(),
            s == hit_views(ranking@),
            output@ == head + hits_text(s.take(k as int)),
        decreases ranking@.len() - k,
    {
        assert(s.take(k + 1).drop_last() =~= s.take(k as int));
        let ghost before = hits_text(s.take(k as int));
        let hit = &ranking[k];
        output.append("**[");
        output.append(hit.file.as_str());
        output.append("]** (score: ");
        output.append(decimal(hit.score as u64).as_str());
        output.append(")\n");
        output.append(hit.section.as_str());
        output.append("\n\n---\n\n");
        assert(output@ =~= head + hits_text(s.take(k + 1)));
        k += 1;
    }
    assert(s.take(ranking@.len() as int) =~= s);
    trim_suffixes(output.as_str(), "\n\n---\n\n")
}

/// Searches memory files, given by name and content, for the terms of a query.
pub fn search_files(query: &str, files: Option<&Vec<(String, String)>>) -> (r: String)
    ensures
        r@ == search_answer(
            query@,
            match files {
                Some(f) => Some(file_views(f@)),
                None => None,
            },
        ),
{
    let files = match files {
        Some(f) => f,
        None => {
            return "Memory directory is empty — no memory files found.".to_owned();
        },
    };
    let lower = to_lower(query);
    let terms = words_of(lower.as_str());
    assert(texts(terms@).len() == terms@.len());
    if terms.len() == 0 {
        return "Empty search query.".to_owned();
    }
    let ghost t = texts(terms@);
    let ghost f = file_views(files@);
    let mut hits: Vec<SearchHit> = Vec::new();
    let mut i: usize = 0;
    assert(hit_views(hits@) =~= all_hits(f.take(0), t));
    while i < files.len()
        invariant
            i <= files@.len(),
            f == file_views(files@),
            t == texts(terms@),
            hit_views(hits@) == all_hits(f.take(i as int), t),
        decreases files@.len() - i,
    {
        assert(f.take(i + 1).drop_last() =~= f.take(i as int));
        let name = files[i].0.as_str();
        if has_memory_extension(name) {
            search_file(&mut hits, name, files[i].1.as_str(), &terms);
        }
        i += 1;
    }
    assert(f.take(files@.len() as int) =~= f);
    report_hits(query, hits)
}

/// A part of the memory context: a heading and what a file says, if anything.
pub open spec fn context_part(heading: Seq<char>, content: Option<Seq<char>>) -> Seq<Seq<char>> {
    match content {
        Some(c) => if trimmed(c).len() > 0 {
            seq!["## "@ + heading + "\n\n"@ + trimmed(c)]
        } else {
            Seq::empty()
        },
        None => Seq::empty(),
    }
}

/// The memory context, given what the files say that could be read.
pub open spec fn memory_context(
    long_term: Option<Seq<char>>,
    yesterday: Seq<char>,
    yesterday_log: Option<Seq<char>>,
    today: Seq<char>,
    today_log: Option<Seq<char>>,
) -> Seq<char> {
    joined_with(
        context_part("Long-term Memory (MEMORY.md)"@, long_term) + context_part(
            "Yesterday's Log ("@ + yesterday + ")"@,
            yesterday_log,
        ) + context_part("Today's Log ("@ + today + ")"@, today_log),
        "\n\n---\n\n"@,
    )
}

fn push_part(parts: &mut Vec<String>, heading: &str, content: &Option<String>)
    ensures
        texts(final(parts)@) == texts(old(parts)@) + context_part(heading@, opt_text(*content)),
{
    match content {
        Some(c) => {
            let t = trim(c.as_str());
            if t.as_str().unicode_len() > 0 {
                let mut s = "## ".to_owned();
                s.append(heading);
                s.append("\n\n");
                s.append(t.as_str());
                proof {
                    lemma_texts_push(parts@, s);
                }
                parts.push(s);
            }
        },
        None => {},
    }
    assert(texts(parts@) =~= texts(old(parts)@) + context_part(heading@, opt_text(*content)));
}

fn log_heading(label: &str, date: &str) -> (s: String)
    ensures
        s@ == label@ + date@ + ")"@,
{
    let mut s = label.to_owned();
    s.append(date);
    s.append(")");
    s
}

/// The date that a key asks for: a date, or one of the words for two days.
pub open spec fn asked_date(
    key: Seq<char>,
    today: Seq<char>,
    yesterday: Seq<char>,
) -> Seq<char> {
    let k = trimmed(key);
    if k.len() == 0 || k == "today"@ {
        today
    } else if k == "yesterday"@ {
        yesterday
    } else {
        k
    }
}

/// Knows where the memory files are and what they look like.
pub struct MemoryManager {
    memory_dir: String,
}

impl View for MemoryManager {
    type V = Seq<char>;

    /// The memory directory.
    closed spec fn view(&self) -> Seq<char> {
        self.memory_dir@
    }
}

impl MemoryManager {
    pub fn new(base_dir: &str) -> (m: MemoryManager)
        ensures
            m@ == joined(base_dir@, "memory"@),
    {
        MemoryManager { memory_dir: join(base_dir, "memory") }
    }

    /// The memory directory.
    pub fn memory_dir(&self) -> (p: &str)
        ensures
            p@ == self@,
    {
        self.memory_dir.as_str()
    }

    /// The file of curated facts.
    pub fn long_term_path(&self) -> (p: String)
        ensures
            p@ == joined(self@, "MEMORY.md"@),
    {
        join(self.memory_dir.as_str(), "MEMORY.md")
    }

    /// The log of a day.
    pub fn daily_path(&self, date_str: &str) -> (p: String)
        ensures
            p@ == joined(self@, date_str@ + ".md"@),
    {
        let mut name = date_str.to_owned();
        name.append(".md");
        join(self.memory_dir.as_str(), name.as_str())
    }

    /// Today's date.
    pub fn today() -> (d: String)
        ensures
            exists|secs: u64| #[trigger] is_date_of(d@, day_before(secs as int, 0)),
    {
        date_string(0)
    }

    /// Yesterday's date.
    pub fn yesterday() -> (d: String)
        ensures
            exists|secs: u64| #[trigger] is_date_of(d@, day_before(secs as int, 1)),
    {
        date_string(1)
    }

    /// The memory context for the system prompt, given what the files say that
    /// could be read.
    pub fn load_context(
        &self,
        long_term: &Option<String>,
        yesterday: &str,
        yesterday_log: &Option<String>,
        today: &str,
        today_log: &Option<String>,
    ) -> (r: String)
        ensures
            r@ == memory_context(
                opt_text(*long_term),
                yesterday@,
                opt_text(*yesterday_log),
                today@,
                opt_text(*today_log),
            ),
    {
        let mut parts: Vec<String> = Vec::new();
        assert(texts(parts@) =~= Seq::empty());
        push_part(&mut parts, "Long-term Memory (MEMORY.md)", long_term);
        assert(texts(parts@) =~= context_part(
            "Long-term Memory (MEMORY.md)"@,
            opt_text(*long_term),
        ));
        push_part(&mut parts, log_heading("Yesterday's Log (", yesterday).as_str(), yesterday_log);
        push_part(&mut parts, log_heading("Today's Log (", today).as_str(), today_log);
        join_with(&parts, "\n\n---\n\n")
    }

    /// What reading the file of curated facts gives, where it exists or not.
    pub fn get_long_term(&self, stored: Option<Result<String, String>>) -> (r: Result<
        String,
        String,
    >)
        ensures
            stored is None ==> r is Ok && r->Ok_0@ == Seq::<char>::empty(),
            stored is Some && stored->Some_0 is Ok ==> r == stored->Some_0,
            stored is Some && stored->Some_0 is Err ==> r is Err && r->Err_0@
                == "Failed to read MEMORY.md: "@ + stored->Some_0->Err_0@,
    {
        match stored {
            None => Ok(String::new()),
            Some(Ok(s)) => Ok(s),
            Some(Err(e)) => {
                let mut m = "Failed to read MEMORY.md: ".to_owned();
                m.append(e.as_str());
                Err(m)
            },
        }
    }

    /// The new content of a day's log with an entry added at a time of day,
    /// given its content so far.
    pub fn append_daily(
        &self,
        stored: Option<String>,
        date: &str,
        time: &str,
        content: &str,
    ) -> (r: String)
        ensures
            r@ == (match stored {
                Some(s) => s@,
                None => log_header(date@),
            }) + log_entry(time@, content@),
    {
        let entry = daily_entry(time, content);
        let mut r = match stored {
            Some(s) => s,
            None => daily_header(date),
        };
        r.append(entry.as_str());
        r
    }

    /// The date that a key asks for.
    pub fn resolve_date(&self, date: &str, today: &str, yesterday: &str) -> (r: String)
        ensures
            r@ == asked_date(date@, today@, yesterday@),
    {
        let k = trim(date);
        if k.as_str().unicode_len() == 0 || str_eq(k.as_str(), "today") {
            today.to_owned()
        } else if str_eq(k.as_str(), "yesterday") {
            yesterday.to_owned()
        } else {
            k
        }
    }

    /// The log of a date, given what reading its file gave.
    pub fn get_daily(&self, date_str: &str, stored: Option<Result<String, String>>) -> (r: Result<
        String,
        String,
    >)
        ensures
            stored is None ==> r is Ok && r->Ok_0@ == "No log found for "@ + date_str@ + "."@,
            stored is Some && stored->Some_0 is Ok ==> r == stored->Some_0,
            stored is Some && stored->Some_0 is Err ==> r is Err && r->Err_0@
                == "Failed to read log for "@ + date_str@ + ": "@ + stored->Some_0->Err_0@,
    {
        match stored {
            None => {
                let mut m = "No log found for ".to_owned();
                m.append(date_str);
                m.append(".");
                Ok(m)
            },
            Some(Ok(s)) => Ok(s),
            Some(Err(e)) => {
                let mut m = "Failed to read log for ".to_owned();
                m.append(date_str);
                m.append(": ");
                m.append(e.as_str());
                Err(m)
            },
        }
    }

    /// Searches the memory files, given by name and content.
    pub fn search(&self, query: &str, files: Option<&Vec<(String, String)>>) -> (r: String)
        ensures
            r@ == search_answer(
                query@,
                match files {
                    Some(f) => Some(file_views(f@)),
                    None => None,
                },
            ),
    {
        search_files(query, files)
    }
}

/// Appending keeps everything that a log already says.
pub proof fn law_daily_log_accumulates(
    before: Seq<char>,
    time: Seq<char>,
    content: Seq<char>,
)
    ensures
        before.is_prefix_of(before + log_entry(time, content)),
        (before + log_entry(time, content)).skip(before.len() as int) == log_entry(time, content),
{
    assert((before + log_entry(time, content)).skip(before.len() as int) =~= log_entry(
        time,
        content,
    ));
}

proof fn lemma_rank_position(ranking: Seq<Hit>, hit: Hit)
    ensures
        0 <= rank_position(ranking, hit) <= ranking.len(),
        forall|i: int|
            rank_position(ranking, hit) <= i < ranking.len() ==> ranks_behind(
                #[trigger] ranking[i],
                hit,
            ),
        rank_position(ranking, hit) > 0 ==> !ranks_behind(
            ranking[rank_position(ranking, hit) - 1],
            hit,
        ),
    decreases ranking.len(),
{
    if ranking.len() > 0 && ranks_behind(ranking.last(), hit) {
        let d = ranking.drop_last();
        lemma_rank_position(d, hit);
        assert forall|i: int| rank_position(ranking, hit) <= i < ranking.len() implies ranks_behind(
            #[trigger] ranking[i],
            hit,
        ) by {
            if i < d.len() {
                assert(d[i] == ranking[i]);
            }
        }
    }
}

/// A ranking keeps exactly the hits that were found, and a hit never stands
/// before one with a higher score.
pub proof fn law_hits_are_ranked_by_score(hits: Seq<Hit>)
    ensures
        ranked(hits).len() == hits.len(),
        ranked(hits).to_multiset() == hits.to_multiset(),
        forall|i: int, j: int|
            0 <= i < j < hits.len() ==> (#[trigger] ranked(hits)[i]).score >= (
            #[trigger] ranked(hits)[j]).score,
    decreases hits.len(),
{
    if hits.len() > 0 {
        let d = hits.drop_last();
        let x = hits.last();
        law_hits_are_ranked_by_score(d);
        let before = ranked(d);
        let p = rank_position(before, x);
        lemma_rank_position(before, x);
        let all = ranked(hits);
        assert(hits =~= d.push(x));
        assert(all == before.insert(p, x));
        vstd::seq_lib::to_multiset_insert(before, p, x);
        vstd::seq_lib::to_multiset_build(d, x);
        assert(all.to_multiset() == hits.to_multiset());
        assert forall|i: int, j: int| 0 <= i < j < all.len() implies (#[trigger] all[i]).score >= (
        #[trigger] all[j]).score by {
            let a = if i < p {
                before[i]
            } else if i == p {
                x
            } else {
                before[i - 1]
            };
            let b = if j < p {
                before[j]
            } else if j == p {
                x
            } else {
                before[j - 1]
            };
            assert(a == all[i] && b == all[j]);
            if i < p && j == p {
                assert(before[i].score >= before[p - 1].score);
            }
            if i == p && j > p {
                assert(ranks_behind(before[j - 1], x));
            }
        }
    } else {
        assert(ranked(hits) =~= hits);
    }
}

proof fn lemma_rank_order(a: Hit, b: Hit, c: Hit)
    ensures
        !ranks_behind(a, b) && !ranks_behind(b, c) ==> !ranks_behind(a, c),
        ranks_behind(a, b) ==> !ranks_behind(b, a),
{
    lemma_text_order(a.file, b.file, c.file);
    lemma_text_order(b.file, a.file, b.file);
}

/// No hit stands before one that it ranks behind. On equal scores `MEMORY.md`
/// comes first.
pub proof fn law_ties_go_to_long_term_memory(hits: Seq<Hit>)
    ensures
        forall|i: int, j: int|
            0 <= i < j < hits.len() ==> !ranks_behind(
                #[trigger] ranked(hits)[i],
                #[trigger] ranked(hits)[j],
            ),
        forall|i: int, j: int|
            0 <= i < j < hits.len() && (#[trigger] ranked(hits)[i]).score == (
            #[trigger] ranked(hits)[j]).score && ranked(hits)[j].file == "MEMORY.md"@
                ==> ranked(hits)[i].file == "MEMORY.md"@,
    decreases hits.len(),
{
    law_hits_are_ranked_by_score(hits);
    if hits.len() > 0 {
        let x = hits.last();
        let before = ranked(hits.drop_last());
        let p = rank_position(before, x);
        law_ties_go_to_long_term_memory(hits.drop_last());
        law_hits_are_ranked_by_score(hits.drop_last());
        lemma_rank_position(before, x);
        let all = ranked(hits);
        assert forall|i: int, j: int| 0 <= i < j < all.len() implies !ranks_behind(
            #[trigger] all[i],
            #[trigger] all[j],
        ) by {
            let a = if i < p {
                before[i]
            } else if i == p {
                x
            } else {
                before[i - 1]
            };
            let b = if j < p {
                before[j]
            } else if j == p {
                x
            } else {
                before[j - 1]
            };
            assert(a == all[i] && b == all[j]);
            if i < p && j == p {
                if i < p - 1 {
                    assert(!ranks_behind(before[i], before[p - 1]));
                } else {
                    lemma_rank_order(a, a, a);
                }
                lemma_rank_order(before[i], before[p - 1], x);
            } else if i == p {
                assert(ranks_behind(before[j - 1], x));
                lemma_rank_order(before[j - 1], x, x);
            }
        }
    }
}

/// At most ten hits are shown, the best ones first.
pub proof fn law_search_shows_the_best(hits: Seq<Hit>, i: int, j: int)
    requires
        0 <= i < shown(hits).len(),
        shown(hits).len() <= j < hits.len(),
    ensures
        shown(hits).len() <= 10,
        shown(hits)[i] == ranked(hits)[i],
        shown(hits)[i].score >= ranked(hits)[j].score,
{
    law_hits_are_ranked_by_score(hits);
}

/// The score of a text is the number of the search terms that stand in it.
pub proof fn law_score_counts_the_terms(text: Seq<char>, terms: Seq<Seq<char>>)
    ensures
        terms_in(text, terms) == terms.filter(|t: Seq<char>| contains_text(text, t)).len(),
        terms_in(text, terms) <= terms.len(),
        terms_in(text, terms) > 0 <==> exists|i: int|
            0 <= i < terms.len() && contains_text(text, #[trigger] terms[i]),
    decreases terms.len(),
{
    reveal(Seq::filter);
    if terms.len() > 0 {
        let d = terms.drop_last();
        law_score_counts_the_terms(text, d);
        if terms_in(text, d) > 0 {
            let i = choose|i: int| 0 <= i < d.len() && contains_text(text, #[trigger] d[i]);
            assert(terms[i] == d[i]);
        }
        if contains_text(text, terms.last()) {
            assert(terms[terms.len() - 1] == terms.last());
        }
        assert forall|i: int| 0 <= i < terms.len() && contains_text(text, #[trigger] terms[i])
            implies terms_in(text, terms) > 0 by {
            if i < d.len() {
                assert(d[i] == terms[i]);
            }
        }
    }
}

/// A section is a hit exactly where it says something and holds a term; the hit
/// carries its score, its file and the section itself.
pub proof fn law_sections_with_a_term_are_hits(
    file: Seq<char>,
    parts: Seq<Seq<char>>,
    part: Seq<char>,
    terms: Seq<Seq<char>>,
)
    ensures
        section_hits(file, Seq::empty(), terms) == Seq::<Hit>::empty(),
        trimmed(part).len() > 0 && (exists|i: int|
            0 <= i < terms.len() && contains_text(lowercase(trimmed(part)), #[trigger] terms[i]))
            ==> section_hits(file, parts.push(part), terms) == section_hits(
            file,
            parts,
            terms,
        ).push(
            (Hit {
                score: terms.filter(
                    |t: Seq<char>| contains_text(lowercase(trimmed(part)), t),
                ).len(),
                file,
                section: trimmed(part),
            }),
        ),
        trimmed(part).len() == 0 || (forall|i: int|
            0 <= i < terms.len() ==> !contains_text(lowercase(trimmed(part)), #[trigger] terms[i]))
            ==> section_hits(file, parts.push(part), terms) == section_hits(file, parts, terms),
{
    law_score_counts_the_terms(lowercase(trimmed(part)), terms);
    assert(parts.push(part).drop_last() =~= parts);
}

/// The hits are those of the sections of the memory files, one file behind the
/// other; other files make no difference.
pub proof fn law_memory_files_are_searched(
    files: Seq<(Seq<char>, Seq<char>)>,
    name: Seq<char>,
    content: Seq<char>,
    terms: Seq<Seq<char>>,
)
    ensures
        all_hits(Seq::empty(), terms) == Seq::<Hit>::empty(),
        is_memory_file(name) ==> all_hits(files.push((name, content)), terms) == all_hits(
            files,
            terms,
        ) + section_hits(name, sections(content, "\n\n"@), terms),
        !is_memory_file(name) ==> all_hits(files.push((name, content)), terms) == all_hits(
            files,
            terms,
        ),
{
    assert(files.push((name, content)).drop_last() =~= files);
}

/// Memory files are those whose name ends in the extension, with something
/// before it.
pub proof fn law_memory_files_have_their_extension(stem: Seq<char>, name: Seq<char>)
    ensures
        stem.len() > 0 ==> is_memory_file(stem + ".md"@),
        is_memory_file(name) ==> exists|s: Seq<char>| s.len() > 0 && name == #[trigger] (s
            + ".md"@),
{
    reveal_strlit(".md");
    assert((stem + ".md"@).skip(stem.len() as int) =~= ".md"@);
    if is_memory_file(name) {
        let s = name.take(name.len() - 3);
        assert(name =~= s + ".md"@);
    }
}

/// Of hits that rank alike the earlier one stays before the later one: a hit
/// behind which none ranks goes last.
pub proof fn law_ranking_keeps_the_order_of_equals(hits: Seq<Hit>, hit: Hit)
    requires
        forall|i: int| 0 <= i < ranked(hits).len() ==> !ranks_behind(#[trigger] ranked(hits)[i], hit),
    ensures
        ranked(hits.push(hit)) == ranked(hits).push(hit),
{
    let r = ranked(hits);
    assert(hits.push(hit).drop_last() =~= hits);
    if r.len() > 0 {
        assert(r.last() == r[r.len() - 1]);
    }
    assert(r.insert(r.len() as int, hit) =~= r.push(hit));
}

/// All hits are shown where there are no more than ten, else the first ten of
/// the ranking.
pub proof fn law_ten_hits_are_shown(hits: Seq<Hit>)
    ensures
        hits.len() <= 10 ==> shown(hits) == ranked(hits),
        hits.len() > 10 ==> shown(hits).len() == 10 && shown(hits).is_prefix_of(ranked(hits)),
{
    law_hits_are_ranked_by_score(hits);
}

/// The text of hits is that of each of them in turn: its file, its score and
/// its section.
pub proof fn law_hits_are_told_one_by_one(hits: Seq<Hit>, h: Hit)
    ensures
        hits_text(Seq::empty()) == Seq::<char>::empty(),
        hits_text(hits.push(h)) == hits_text(hits) + ("**["@ + h.file + "]** (score: "@ + dec(
            h.score,
        ) + ")\n"@ + h.section + "\n\n---\n\n"@),
{
    assert(hits.push(h).drop_last() =~= hits);
    assert(hits_text(hits.push(h)) =~= hits_text(hits) + ("**["@ + h.file + "]** (score: "@ + dec(
        h.score,
    ) + ")\n"@ + h.section + "\n\n---\n\n"@));
}

/// A report names the query and tells the hits that are shown, without the line
/// that parts them behind the last one. Without a hit it says so.
pub proof fn law_reports_tell_the_hits(query: Seq<char>, hits: Seq<Hit>)
    requires
        forall|i: int|
            0 <= i < hits.len() ==> (#[trigger] hits[i]).section.len() > 0 && !is_space(
                hits[i].section.last(),
            ),
    ensures
        hits.len() == 0 ==> search_report(query, hits) == "No results found for: "@ + query,
        hits.len() > 0 ==> search_report(query, hits) + "\n\n---\n\n"@
            == "Memory search results for \""@ + query + "\"\n\n"@ + hits_text(shown(hits)),
{
    if hits.len() > 0 {
        let sep = "\n\n---\n\n"@;
        reveal_strlit("\n\n---\n\n");
        law_hits_are_ranked_by_score(hits);
        let all = shown(hits);
        let h = all.last();
        assert(ranked(hits)[all.len() - 1] == h);
        ranked(hits).to_multiset_ensures();
        hits.to_multiset_ensures();
        assert(ranked(hits).contains(h));
        assert(hits.to_multiset().count(h) == ranked(hits).to_multiset().count(h));
        assert(hits.contains(h));
        let i = hits.index_of(h);
        assert(hits[i] == h);
        let head = "Memory search results for \""@ + query + "\"\n\n"@;
        let front = head + (hits_text(all.drop_last()) + ("**["@ + h.file + "]** (score: "@ + dec(
            h.score,
        ) + ")\n"@ + h.section));
        assert(all.drop_last().push(h) =~= all);
        law_hits_are_told_one_by_one(all.drop_last(), h);
        assert(head + hits_text(all) =~= front + sep);
        assert(front.last() == h.section.last());
        assert(sep.last() == '\n');
        let n = front.len() - sep.len();
        if occurs_at(front, sep, n) {
            assert(front.subrange(n, n + sep.len())[sep.len() - 1] == front.last());
        }
        crate::scan::law_suffixes_are_cut(front, sep);
    }
}

/// Where there is a memory directory and something to look for, the answer
/// reports the hits for the words of the query, whatever their case.
pub proof fn law_searches_look_for_the_words(
    query: Seq<char>,
    files: Seq<(Seq<char>, Seq<char>)>,
)
    ensures
        words(lowercase(query)).len() > 0 ==> search_answer(query, Some(files)) == search_report(
            query,
            all_hits(files, words(lowercase(query))),
        ),
        words(lowercase(query)).len() == 0 ==> search_answer(query, Some(files))
            == "Empty search query."@,
        search_answer(query, None) == "Memory directory is empty — no memory files found."@,
{
}

/// What the memory files say goes into the context, long-term memory first,
/// then yesterday's log and today's; a file that is missing or blank leaves
/// nothing behind.
pub proof fn law_context_holds_what_the_files_say(
    long_term: Option<Seq<char>>,
    yesterday: Seq<char>,
    yesterday_log: Option<Seq<char>>,
    today: Seq<char>,
    today_log: Option<Seq<char>>,
)
    ensures
        long_term is Some && trimmed(long_term->0).len() > 0 ==> contains_text(
            memory_context(long_term, yesterday, yesterday_log, today, today_log),
            "## Long-term Memory (MEMORY.md)\n\n"@ + trimmed(long_term->0),
        ),
        yesterday_log is Some && trimmed(yesterday_log->0).len() > 0 ==> contains_text(
            memory_context(long_term, yesterday, yesterday_log, today, today_log),
            "## "@ + ("Yesterday's Log ("@ + yesterday + ")"@) + "\n\n"@ + trimmed(
                yesterday_log->0,
            ),
        ),
        today_log is Some && trimmed(today_log->0).len() > 0 ==> contains_text(
            memory_context(long_term, yesterday, yesterday_log, today, today_log),
            "## "@ + ("Today's Log ("@ + today + ")"@) + "\n\n"@ + trimmed(today_log->0),
        ),
        (long_term is None || trimmed(long_term->0).len() == 0) ==> memory_context(
            long_term,
            yesterday,
            yesterday_log,
            today,
            today_log,
        ) == memory_context(None, yesterday, yesterday_log, today, today_log),
        (yesterday_log is None || trimmed(yesterday_log->0).len() == 0) ==> memory_context(
            long_term,
            yesterday,
            yesterday_log,
            today,
            today_log,
        ) == memory_context(long_term, yesterday, None, today, today_log),
        (today_log is None || trimmed(today_log->0).len() == 0) ==> memory_context(
            long_term,
            yesterday,
            yesterday_log,
            today,
            today_log,
        ) == memory_context(long_term, yesterday, yesterday_log, today, None),
        memory_context(None, yesterday, None, today, None).len() == 0,
{
    let sep = "\n\n---\n\n"@;
    let a = context_part("Long-term Memory (MEMORY.md)"@, long_term);
    let b = context_part("Yesterday's Log ("@ + yesterday + ")"@, yesterday_log);
    let c = context_part("Today's Log ("@ + today + ")"@, today_log);
    let all = a + b + c;
    if a.len() > 0 {
        assert(all[0] == a[0]);
        law_joined_texts_are_found(all, sep, 0);
        reveal_strlit("## Long-term Memory (MEMORY.md)\n\n");
        reveal_strlit("## ");
        reveal_strlit("Long-term Memory (MEMORY.md)");
        reveal_strlit("\n\n");
        assert("## "@ + "Long-term Memory (MEMORY.md)"@ + "\n\n"@
            =~= "## Long-term Memory (MEMORY.md)\n\n"@);
    }
    if b.len() > 0 {
        assert(all[a.len() as int] == b[0]);
        law_joined_texts_are_found(all, sep, a.len() as int);
    }
    if c.len() > 0 {
        assert(all[a.len() as int + b.len()] == c[0]);
        law_joined_texts_are_found(all, sep, a.len() as int + b.len());
    }
}

/// The parts of the context stand in their order, with a line between them.
pub proof fn law_context_is_in_order(
    long_term: Seq<char>,
    yesterday: Seq<char>,
    yesterday_log: Seq<char>,
    today: Seq<char>,
    today_log: Seq<char>,
)
    requires
        trimmed(long_term).len() > 0,
        trimmed(yesterday_log).len() > 0,
        trimmed(today_log).len() > 0,
    ensures
        memory_context(Some(long_term), yesterday, Some(yesterday_log), today, Some(today_log))
            == memory_context(Some(long_term), yesterday, None, today, None) + "\n\n---\n\n"@
            + memory_context(None, yesterday, Some(yesterday_log), today, None)
            + "\n\n---\n\n"@ + memory_context(None, yesterday, None, today, Some(today_log)),
{
    let sep = "\n\n---\n\n"@;
    let a = context_part("Long-term Memory (MEMORY.md)"@, Some(long_term));
    let b = context_part("Yesterday's Log ("@ + yesterday + ")"@, Some(yesterday_log));
    let c = context_part("Today's Log ("@ + today + ")"@, Some(today_log));
    let none = Seq::<Seq<char>>::empty();
    assert(a + none + none =~= seq![a[0]]);
    assert(none + b + none =~= seq![b[0]]);
    assert(none + none + c =~= seq![c[0]]);
    assert(a + b + c =~= seq![a[0]].push(b[0]).push(c[0]));
    crate::scan::law_joined_texts(seq![a[0]], b[0], sep);
    crate::scan::law_joined_texts(seq![a[0]].push(b[0]), c[0], sep);
    crate::scan::law_joined_texts(none, a[0], sep);
    crate::scan::law_joined_texts(none, c[0], sep);
}

/// A key names today where it says so or nothing, yesterday where it says so,
/// and else the date that it is; white space around it makes no difference.
pub proof fn law_keys_ask_for_dates(key: Seq<char>, today: Seq<char>, yesterday: Seq<char>)
    ensures
        trimmed(key) == "today"@ || trimmed(key).len() == 0 ==> asked_date(key, today, yesterday)
            == today,
        trimmed(key) == "yesterday"@ ==> asked_date(key, today, yesterday) == yesterday,
        trimmed(key) != "today"@ && trimmed(key) != "yesterday"@ && trimmed(key).len() > 0
            ==> asked_date(key, today, yesterday) == trimmed(key),
{
    reveal_strlit("today");
    reveal_strlit("yesterday");
    assert("today"@.len() == 5);
    assert("yesterday"@.len() == 9);
}

/// A log that is read gives what is stored of it; that there is none is said
/// with its date, and so is why it cannot be read.
pub proof fn law_logs_are_read_as_stored(
    m: MemoryManager,
    date: &str,
    stored: Option<Result<String, String>>,
    r: Result<String, String>,
)
    requires
        call_ensures(MemoryManager::get_daily, (&m, date, stored), r),
    ensures
        stored is Some && stored->0 is Ok ==> r == stored->0,
        stored is None ==> r is Ok && contains_text(r->Ok_0@, date@),
        stored is Some && stored->0 is Err ==> r is Err && contains_text(r->Err_0@, date@)
            && contains_text(r->Err_0@, stored->0->Err_0@),
{
    if stored is None {
        law_parts_are_found("No log found for "@, date@, "."@, r->Ok_0@);
    } else if stored->0 is Err {
        let e = stored->0->Err_0@;
        let head = "Failed to read log for "@;
        assert(r->Err_0@ =~= head + date@ + (": "@ + e));
        law_parts_are_found(head, date@, ": "@ + e, r->Err_0@);
        assert(r->Err_0@ =~= (head + date@ + ": "@) + e + Seq::<char>::empty());
        law_parts_are_found(head + date@ + ": "@, e, Seq::empty(), r->Err_0@);
    }
}

/// What is stored of the curated facts is what reading them gives; there are
/// none where there is no file.
pub proof fn law_facts_are_read_as_stored(
    m: MemoryManager,
    stored: Option<Result<String, String>>,
    r: Result<String, String>,
)
    requires
        call_ensures(MemoryManager::get_long_term, (&m, stored), r),
    ensures
        stored is Some && stored->0 is Ok ==> r == stored->0,
        stored is None ==> r is Ok && r->Ok_0@.len() == 0,
        stored is Some && stored->0 is Err ==> r is Err && contains_text(
            r->Err_0@,
            stored->0->Err_0@,
        ),
{
    if stored is Some && stored->0 is Err {
        let e = stored->0->Err_0@;
        let head = "Failed to read MEMORY.md: "@;
        assert(r->Err_0@ =~= head + e + Seq::<char>::empty());
        law_parts_are_found(head, e, Seq::empty(), r->Err_0@);
    }
}

/// An entry goes behind everything that the log of the day says, with its time
/// and its content; a new log begins with its date.
pub proof fn law_entries_go_behind_the_log(
    m: MemoryManager,
    stored: Option<String>,
    date: &str,
    time: &str,
    content: &str,
    r: String,
)
    requires
        call_ensures(MemoryManager::append_daily, (&m, stored, date, time, content), r),
    ensures
        stored is Some ==> stored->0@.is_prefix_of(r@) && contains_text(
            r@.skip(stored->0@.len() as int),
            trimmed(content@),
        ) && contains_text(r@.skip(stored->0@.len() as int), time@),
        stored is None ==> contains_text(r@, date@) && contains_text(r@, trimmed(content@))
            && contains_text(r@, time@),
{
    let e = log_entry(time@, content@);
    crate::memory_writer::law_entries_hold_time_and_content(time@, content@);
    law_parts_are_found(Seq::empty(), time@, Seq::empty(), e);
    law_parts_are_found(Seq::empty(), trimmed(content@), Seq::empty(), e);
    if stored is Some {
        assert(r@.skip(stored->0@.len() as int) =~= e);
    } else {
        let h = log_header(date@);
        crate::memory_writer::law_headers_hold_the_date(date@);
        law_parts_are_found(Seq::empty(), date@, Seq::empty(), h);
        let (a, b) = choose|a: Seq<char>, b: Seq<char>| h == #[trigger] (a + date@ + b);
        assert(r@ =~= a + date@ + (b + e));
        law_parts_are_found(a, date@, b + e, r@);
        let (a, b) = choose|a: Seq<char>, b: Seq<char>| e == #[trigger] (a + trimmed(content@) + b);
        assert(r@ =~= (h + a) + trimmed(content@) + b);
        law_parts_are_found(h + a, trimmed(content@), b, r@);
        let (a, b) = choose|a: Seq<char>, b: Seq<char>| e == #[trigger] (a + time@ + b);
        assert(r@ =~= (h + a) + time@ + b);
        law_parts_are_found(h + a, time@, b, r@);
    }
}

/// The files of the memory lie in its directory: the curated facts under their
/// name, each log under its date.
pub proof fn law_memory_files_lie_in_the_directory(
    m: MemoryManager,
    date: &str,
    facts: String,
    log: String,
)
    requires
        call_ensures(MemoryManager::long_term_path, (&m,), facts),
        call_ensures(MemoryManager::daily_path, (&m, date), log),
    ensures
        facts@ == joined(m@, "MEMORY.md"@),
        log@ == joined(m@, date@ + ".md"@),
{
}

/// Of two files the long-term memory comes first, and other files by their names.
pub proof fn law_files_are_ordered_by_name(a: Seq<char>, b: Seq<char>)
    ensures
        a != "MEMORY.md"@ ==> file_before("MEMORY.md"@, a),
        !file_before(a, "MEMORY.md"@),
        a != "MEMORY.md"@ && b != "MEMORY.md"@ ==> (file_before(a, b) <==> text_less(a, b)),
{
}

/// Hits and files are what their parts say.
pub proof fn law_hits_are_what_they_say(h: SearchHit, v: Seq<(String, String)>, i: int)
    ensures
        h@.score == h.score,
        h@.file == h.file@,
        h@.section == h.section@,
        file_views(v).len() == v.len(),
        0 <= i < v.len() ==> file_views(v)[i] == (v[i].0@, v[i].1@),
{
}

} // verus!
