use vstd::prelude::*;
use crate::language::{file_name_for, language_to_file_name};
use crate::submission::{Submission, ArchiveKey, key_of};
use crate::text::{decimal, decimal_text};

verus! {

/// The text of the first element of an HTML page that a CSS selector
/// matches, or `None`.
pub uninterp spec fn first_match_text_of(html: Seq<char>, selector: Seq<char>) -> Option<Seq<char>>;

/// Relies on scraper's `Selector::parse`, `Html::parse_document`,
/// `Html::select` and `ElementRef::text`: the text nodes of the first
/// element that `selector` matches in the page, joined; `None` when the
/// selector does not parse or matches nothing. The result depends on the
/// two texts alone.
#[verifier::external_body]
fn first_match_text(html: &str, selector: &str) -> (r: Option<String>)
    ensures
        opt_view(&r) == first_match_text_of(html@, selector@),
{
    let selector = match scraper::Selector::parse(selector) {
        Ok(s) => s,
        Err(_) => return None,
    };
    let document = scraper::Html::parse_document(html);
    match document.select(&selector).next() {
        Some(element) => Some(element.text().collect::<Vec<_>>().join("")),
        None => None,
    }
}

pub open spec fn opt_view(o: &Option<String>) -> Option<Seq<char>> {
    match o {
        Some(t) => Some(t@),
        None => None,
    }
}

/// What is archived of an extraction: its text when there is some; an empty
/// capture counts as none.
pub open spec fn source_in(o: Option<Seq<char>>) -> Option<Seq<char>> {
    match o {
        Some(t) => if t.len() > 0 {
            Some(t)
        } else {
            None
        },
        None => None,
    }
}

/// The selector of the page element that holds a submission's source.
pub open spec fn source_selector() -> Seq<char> {
    "#submission-code"@
}

/// The directory that holds the archive entries of the judge.
pub open spec fn host_dir() -> Seq<char> {
    "atcoder.jp"@
}

/// The name of the metadata file of an archive entry.
pub open spec fn metadata_file_name() -> Seq<char> {
    "submission.json"@
}

/// The directory of a submission's archive entry, relative to the archive root.
pub open spec fn entry_dir_of(s: Submission) -> Seq<Seq<char>> {
    seq![host_dir(), s.contest_id@, s.problem_id@]
}

/// The commit message of a submission's archive entry.
pub open spec fn commit_message_of(s: Submission) -> Seq<char> {
    "[AC] "@ + s.contest_id@ + " "@ + s.problem_id@
}

/// The page of a submission on the judge.
pub open spec fn page_url_of(s: Submission) -> Seq<char> {
    "https://atcoder.jp/contests/"@ + s.contest_id@ + "/submissions/"@ + decimal(s.id as int)
}

/// The list of all submissions of a user.
pub open spec fn submissions_url_of(user_id: Seq<char>) -> Seq<char> {
    "https://kenkoooo.com/atcoder/atcoder-api/results?user="@ + user_id
}

/// Whether a file name is that of an archive entry's metadata file.
pub open spec fn is_metadata_name(name: Seq<char>) -> bool {
    name.len() >= metadata_file_name().len() && name.subrange(
        name.len() - metadata_file_name().len(),
        name.len() as int,
    ) == metadata_file_name()
}

/// The view of a list of texts.
pub open spec fn texts(v: Seq<String>) -> Seq<Seq<char>> {
    v.map_values(|t: String| t@)
}

/// The commit that records one archive entry.
#[derive(Clone, Debug, PartialEq, Eq)]
pub struct CommitPlan {
    pub author: String,
    pub email: String,
    pub time: i64,
    pub message: String,
}

/// Everything needed to write one archive entry and record it.
#[derive(Clone, Debug, PartialEq, Eq)]
pub struct ArchivePlan {
    /// Path of the entry's directory below the archive root, one component each.
    pub entry_dir: Vec<String>,
    pub source_file: String,
    pub metadata_file: String,
    pub source: String,
    pub commit: CommitPlan,
}

/// The extraction result kept for archiving: `None` when nothing was
/// extracted or the text is empty.
pub fn source_to_archive(extracted: Option<String>) -> (r: Option<String>)
    ensures
        opt_view(&r) == source_in(opt_view(&extracted)),
{
    match extracted {
        Some(t) => if t.as_str().unicode_len() > 0 {
            Some(t)
        } else {
            None
        },
        None => None,
    }
}

/// The source text of a submission page: the text of its `#submission-code`
/// element, or `None` when there is no such element or it is empty.
pub fn extract_source(html: &str) -> (r: Option<String>)
    ensures
        opt_view(&r) == source_in(first_match_text_of(html@, source_selector())),
{
    source_to_archive(first_match_text(html, "#submission-code"))
}

/// The address of a submission's page on the judge.
pub fn submission_page_url(s: &Submission) -> (r: String)
    ensures
        r@ == page_url_of(*s),
{
    let mut u = String::from_str("https://atcoder.jp/contests/");
    u.append(s.contest_id.as_str());
    u.append("/submissions/");
    let id = decimal_text(s.id);
    u.append(id.as_str());
    u
}

/// The address of the list of all submissions of a user.
pub fn submissions_url(user_id: &str) -> (r: String)
    ensures
        r@ == submissions_url_of(user_id@),
{
    let mut u = String::from_str("https://kenkoooo.com/atcoder/atcoder-api/results?user=");
    u.append(user_id);
    u
}

/// Whether a file name ends in `submission.json`, the metadata file of an
/// archive entry.
pub fn is_metadata_file(name: &str) -> (r: bool)
    ensures
        r == is_metadata_name(name@),
{
    let suffix = "submission.json";
    proof {
        reveal_strlit("submission.json");
    }
    let n = name.unicode_len();
    let m = suffix.unicode_len();
    if n < m {
        return false;
    }
    let tail = String::from_str(name.substring_char(n - m, n));
    tail == String::from_str(suffix)
}

/// The keys of the archive entries whose metadata records are `records`.
pub fn archived_keys(records: &Vec<Submission>) -> (r: Vec<ArchiveKey>)
    ensures
        r@.len() == records@.len(),
        forall|i: int| 0 <= i < records@.len() ==> (#[trigger] r@[i])@ == key_of(records@[i]),
{
    let mut r: Vec<ArchiveKey> = Vec::new();
    let mut i: usize = 0;
    while i < records.len()
        invariant
            i <= records@.len(),
            r@.len() == i,
            forall|t: int| 0 <= t < i ==> (#[trigger] r@[t])@ == key_of(records@[t]),
        decreases records@.len() - i,
    {
        r.push(records[i].archive_key());
        i = i + 1;
    }
    r
}

/// The message of the commit that records a submission.
pub fn commit_message(s: &Submission) -> (r: String)
    ensures
        r@ == commit_message_of(*s),
{
    let mut m = String::from_str("[AC] ");
    m.append(s.contest_id.as_str());
    m.append(" ");
    m.append(s.problem_id.as_str());
    m
}

/// What to do with one selected submission once its page was read:
/// `None` (skip it: nothing written, nothing committed) when the extraction
/// gave no text or an empty one; otherwise the entry to write under
/// `atcoder.jp/<contest>/<problem>/` and the commit by the submission's user,
/// with `email`, at its submission time.
pub fn plan_archive(s: &Submission, extracted: Option<String>, email: &str) -> (r: Option<ArchivePlan>)
    ensures
        r is None <==> source_in(opt_view(&extracted)) is None,
        r matches Some(p) ==> {
            &&& Some(p.source@) == source_in(opt_view(&extracted))
            &&& texts(p.entry_dir@) == entry_dir_of(*s)
            &&& p.source_file@ == file_name_for(s.language@)
            &&& p.metadata_file@ == metadata_file_name()
            &&& p.commit.author@ == s.user_id@
            &&& p.commit.email@ == email@
            &&& p.commit.time == s.epoch_second
            &&& p.commit.message@ == commit_message_of(*s)
        },
{
    let source = match source_to_archive(extracted) {
        Some(t) => t,
        None => return None,
    };
    let mut entry_dir: Vec<String> = Vec::new();
    entry_dir.push(String::from_str("atcoder.jp"));
    entry_dir.push(s.contest_id.clone());
    entry_dir.push(s.problem_id.clone());
    assert(texts(entry_dir@) =~= entry_dir_of(*s));
    let commit = CommitPlan {
        author: s.user_id.clone(),
        email: String::from_str(email),
        time: s.epoch_second,
        message: commit_message(s),
    };
    Some(
        ArchivePlan {
            entry_dir,
            source_file: language_to_file_name(s.language.as_str()),
            metadata_file: String::from_str("submission.json"),
            source,
            commit,
        },
    )
}

} // verus!
