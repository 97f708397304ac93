//! The catalog of compilers that the service offers, kept per language and refreshed when it
//! has grown stale.
//!
//! The catalog does no fetching of its own. It says when a refresh is due and from where, takes
//! what was fetched, cleans it and stores it. Time is a count of nanoseconds on a clock of the
//! caller's choosing that never runs backwards.

use vstd::prelude::*;
use crate::language::Language;
use crate::number::{parse_u64, parse_unsigned};
use crate::text::{
    ascii_lowercase, from_chars, occurs_at_exec, starts_with, to_ascii_lowercase, to_chars,
    unicode_alphanumeric,
};

verus! {

/// Seconds between two refreshes where nothing else is configured: twelve hours.
pub const DEFAULT_UPDATE_PERIOD_SECS: u64 = 43200;

/// Nanoseconds in a second.
pub const NANOS_PER_SEC: u128 = 1_000_000_000;

/// One compiler that the service offers.
#[derive(Debug, Clone)]
pub struct GodboltTarget {
    pub id: String,
    pub name: String,
    pub semver: String,
    pub instruction_set: String,
}

/// What a `GodboltTarget` holds, as plain texts.
pub struct TargetView {
    pub id: Seq<char>,
    pub name: Seq<char>,
    pub semver: Seq<char>,
    pub instruction_set: Seq<char>,
}

impl View for GodboltTarget {
    type V = TargetView;

    open spec fn view(&self) -> TargetView {
        TargetView {
            id: self.id@,
            name: self.name@,
            semver: self.semver@,
            instruction_set: self.instruction_set@,
        }
    }
}

/// One version of a library that the service offers.
#[derive(Debug, Clone)]
pub struct GodboltLibraryVersion {
    pub id: String,
}

/// One library that the service offers.
#[derive(Debug, Clone)]
pub struct GodboltLibrary {
    pub id: String,
    pub versions: Vec<GodboltLibraryVersion>,
}

/// The catalog of one language.
#[derive(Debug)]
pub struct GodboltMetadata {
    targets: Vec<GodboltTarget>,
    libraries: Vec<GodboltLibrary>,
    last_update_time: Option<u128>,
}

/// What the catalog asks its caller to do before the targets are read.
#[derive(Debug, Clone)]
pub enum CacheAction {
    /// The catalog is fresh: read it as it is.
    UseCached,
    /// The catalog is stale: fetch the compiler list, then the library list, and hand both in.
    Fetch { compilers_url: String, libraries_url: String },
}

/// One of the three marks that a version label keeps beside letters and digits.
pub open spec fn is_label_mark(c: char) -> bool {
    c == '.' || c == '-' || c == '_'
}

/// Each character of the label, paired with whether it is alphanumeric.
pub open spec fn alphanumeric_marks(label: Seq<char>) -> Seq<(char, bool)> {
    label.map_values(|c: char| (c, unicode_alphanumeric(c)))
}

/// A character that a cleaned label keeps: one that is marked as alphanumeric, or one of
/// `.`, `-`, `_`.
pub open spec fn keeps(marked: (char, bool)) -> bool {
    marked.1 || is_label_mark(marked.0)
}

/// The cleaned form of a label whose characters are marked: the characters that are kept, in
/// order, each in its ASCII lower case.
pub open spec fn cleaned(marked: Seq<(char, bool)>) -> Seq<char> {
    marked.filter(|m: (char, bool)| keeps(m)).map_values(|m: (char, bool)| ascii_lowercase(m.0))
}

/// The cleaned form of a version label: its alphanumeric characters and the marks `.`, `-`,
/// `_`, in order, each in its ASCII lower case. A capital outside ASCII is kept as it is.
pub open spec fn sanitize(label: Seq<char>) -> Seq<char> {
    cleaned(alphanumeric_marks(label))
}

/// A character that a cleaned label can hold: the ASCII lower case of an alphanumeric
/// character, or one of the three marks.
pub open spec fn is_clean_char(c: char) -> bool {
    is_label_mark(c) || exists|raw: char| unicode_alphanumeric(raw) && c == ascii_lowercase(raw)
}

/// Every character of the label is one that a cleaned label can hold, and none is an ASCII
/// capital.
pub open spec fn is_clean_label(label: Seq<char>) -> bool {
    forall|i: int|
        0 <= i < label.len() ==> is_clean_char(#[trigger] label[i]) && !('A' <= label[i] <= 'Z')
}

/// The text that Rust version labels may begin with and that is not part of the version.
pub open spec fn rustc_label_prefix() -> Seq<char> {
    "rustc "@
}

/// What is left of that text in a cleaned label: cleaning drops its blank.
pub open spec fn rustc_prefix() -> Seq<char> {
    "rustc"@
}

/// The characters of `rustc_label_prefix` with their marks: the five letters are
/// alphanumeric, the blank is not.
pub open spec fn rustc_prefix_marks() -> Seq<(char, bool)> {
    seq![('r', true), ('u', true), ('s', true), ('t', true), ('c', true), (' ', false)]
}

/// The text without `prefix` where it begins with it, unchanged where it does not.
pub open spec fn strip_prefix(s: Seq<char>, prefix: Seq<char>) -> Seq<char> {
    if starts_with(s, prefix) {
        s.skip(prefix.len() as int)
    } else {
        s
    }
}

/// The label under which a target of `language` is stored, from the marked characters of the
/// label that was fetched: the cleaned label, for Rust without the prefix where the cleaned
/// label begins with it.
pub open spec fn stored_from_marks(language: Language, marked: Seq<(char, bool)>) -> Seq<char> {
    match language {
        Language::Rust => strip_prefix(cleaned(marked), rustc_prefix()),
        Language::Cpp => cleaned(marked),
    }
}

/// The label under which a target of `language` is stored, from the label that was fetched.
pub open spec fn stored_label(language: Language, fetched: Seq<char>) -> Seq<char> {
    stored_from_marks(language, alphanumeric_marks(fetched))
}

/// The target as it is stored: its label cleaned, all else as it was fetched.
pub open spec fn stored_target(language: Language, fetched: TargetView) -> TargetView {
    TargetView { semver: stored_label(language, fetched.semver), ..fetched }
}

/// The targets' contents, in order.
pub open spec fn target_views(targets: Seq<GodboltTarget>) -> Seq<TargetView> {
    targets.map_values(|t: GodboltTarget| t@)
}

/// The targets as they are stored, in the order in which they were fetched.
pub open spec fn stored_targets(language: Language, fetched: Seq<TargetView>) -> Seq<TargetView> {
    fetched.map_values(|t: TargetView| stored_target(language, t))
}

/// Time that has passed from `earlier` to `now`, none if the clock shows `now` before `earlier`.
pub open spec fn elapsed(earlier: u128, now: u128) -> nat {
    if now >= earlier {
        (now - earlier) as nat
    } else {
        0
    }
}

/// A catalog is stale when it was never filled, or when more than the period has passed since
/// it was last filled. At an age of exactly the period it is still fresh.
pub open spec fn is_stale(last_update: Option<u128>, now: u128, period_secs: u64) -> bool {
    match last_update {
        None => true,
        Some(t) => elapsed(t, now) > period_secs * NANOS_PER_SEC,
    }
}

/// The refresh period in seconds: the configured text where it is an unsigned decimal number
/// that fits in 64 bits, else the default.
pub open spec fn configured_period(configured: Option<Seq<char>>) -> u64 {
    match configured {
        Some(text) => match parse_unsigned(text, u64::MAX as nat) {
            Some(secs) => secs as u64,
            None => DEFAULT_UPDATE_PERIOD_SECS,
        },
        None => DEFAULT_UPDATE_PERIOD_SECS,
    }
}

/// Address of the compiler list of a language.
pub open spec fn compilers_url_view(language: Language) -> Seq<char> {
    "https://godbolt.org/api/compilers/"@ + language.name_view()
}

/// Address of the library list of a language.
pub open spec fn libraries_url_view(language: Language) -> Seq<char> {
    "https://godbolt.org/api/libraries/"@ + language.name_view()
}

/// Cleaning what stands before a position, then the character at it.
proof fn lemma_cleaned_step(marked: Seq<(char, bool)>, i: int)
    requires
        0 <= i < marked.len(),
    ensures
        cleaned(marked.take(i + 1)) == if keeps(marked[i]) {
            cleaned(marked.take(i)).push(ascii_lowercase(marked[i].0))
        } else {
            cleaned(marked.take(i))
        },
{
    reveal(Seq::filter);
    let keep = |m: (char, bool)| keeps(m);
    let lower = |m: (char, bool)| ascii_lowercase(m.0);
    let head = marked.take(i + 1);
    assert(head.drop_last() =~= marked.take(i));
    assert(head.last() == marked[i]);
    if keeps(marked[i]) {
        assert(head.filter(keep) == marked.take(i).filter(keep).push(marked[i]));
        assert(head.filter(keep).map_values(lower) =~= marked.take(i).filter(keep).map_values(
            lower,
        ).push(ascii_lowercase(marked[i].0)));
    } else {
        assert(head.filter(keep) == marked.take(i).filter(keep));
    }
}

/// `c` is the ASCII lower case of a character of `marked` that is kept.
pub open spec fn comes_from(c: char, marked: Seq<(char, bool)>) -> bool {
    exists|j: int|
        0 <= j < marked.len() && keeps(#[trigger] marked[j]) && c == ascii_lowercase(marked[j].0)
}

/// Every character of a cleaned label is the ASCII lower case of a character that was kept,
/// none is an ASCII capital, and the cleaned label is no longer than what was cleaned.
pub proof fn lemma_cleaned(marked: Seq<(char, bool)>)
    ensures
        forall|i: int|
            0 <= i < cleaned(marked).len() ==> comes_from(#[trigger] cleaned(marked)[i], marked),
        forall|i: int|
            0 <= i < cleaned(marked).len() ==> !('A' <= #[trigger] cleaned(marked)[i] <= 'Z'),
        cleaned(marked).len() <= marked.len(),
    decreases marked.len(),
{
    if marked.len() == 0 {
        reveal(Seq::filter);
        assert(cleaned(marked) =~= Seq::<char>::empty());
    } else {
        let last = marked.len() - 1;
        lemma_cleaned_step(marked, last);
        assert(marked.take(last + 1) =~= marked);
        let head = marked.take(last);
        lemma_cleaned(head);
        let before = cleaned(head);
        assert forall|i: int| 0 <= i < cleaned(marked).len() implies comes_from(
            #[trigger] cleaned(marked)[i],
            marked,
        ) by {
            if i < before.len() {
                assert(cleaned(marked)[i] == before[i]);
                assert(comes_from(before[i], head));
                let j = choose|j: int|
                    0 <= j < head.len() && keeps(#[trigger] head[j]) && before[i]
                        == ascii_lowercase(head[j].0);
                assert(head[j] == marked[j]);
            } else {
                assert(keeps(marked[last]));
            }
        }
        assert forall|i: int| 0 <= i < cleaned(marked).len() implies !('A'
            <= #[trigger] cleaned(marked)[i] <= 'Z') by {
            if i < before.len() {
                assert(cleaned(marked)[i] == before[i]);
            }
        }
    }
}

/// A cleaned label holds nothing but the ASCII lower case of alphanumeric characters and the
/// three marks `.`, `-`, `_`, and no ASCII capital letter.
pub proof fn lemma_sanitize_is_clean(label: Seq<char>)
    ensures
        is_clean_label(sanitize(label)),
        sanitize(label).len() <= label.len(),
{
    let marked = alphanumeric_marks(label);
    lemma_cleaned(marked);
    assert forall|i: int| 0 <= i < sanitize(label).len() implies is_clean_char(
        #[trigger] sanitize(label)[i],
    ) && !('A' <= sanitize(label)[i] <= 'Z') by {
        let c = sanitize(label)[i];
        assert(comes_from(cleaned(marked)[i], marked));
        let j = choose|j: int|
            0 <= j < marked.len() && keeps(#[trigger] marked[j]) && c == ascii_lowercase(
                marked[j].0,
            );
        let raw = marked[j].0;
        assert(marked[j] == (label[j], unicode_alphanumeric(label[j])));
        if !unicode_alphanumeric(raw) {
            assert(is_label_mark(raw));
            assert(c == raw);
        }
    }
}

/// What is left of a clean label when characters are taken from its start is clean.
proof fn lemma_clean_label_skip(label: Seq<char>, k: int)
    requires
        is_clean_label(label),
        0 <= k <= label.len(),
    ensures
        is_clean_label(label.skip(k)),
{
    assert forall|i: int| 0 <= i < label.skip(k).len() implies is_clean_char(
        #[trigger] label.skip(k)[i],
    ) && !('A' <= label.skip(k)[i] <= 'Z') by {
        assert(label.skip(k)[i] == label[i + k]);
    }
}

/// Whatever was fetched, the label that is stored is clean.
pub proof fn lemma_stored_label_is_clean(language: Language, fetched: Seq<char>)
    ensures
        is_clean_label(stored_label(language, fetched)),
{
    lemma_sanitize_is_clean(fetched);
    if language == Language::Rust && starts_with(sanitize(fetched), rustc_prefix()) {
        lemma_clean_label_skip(sanitize(fetched), rustc_prefix().len() as int);
    }
}

/// For Rust targets, a label whose cleaned form begins with the prefix is stored without it,
/// and any other label is stored in its cleaned form; for C++ targets cleaning is all that is
/// done.
pub proof fn lemma_stored_label_prefix(language: Language, fetched: Seq<char>)
    ensures
        language == Language::Rust && starts_with(sanitize(fetched), rustc_prefix())
            ==> rustc_prefix() + stored_label(language, fetched) == sanitize(fetched),
        language == Language::Rust && !starts_with(sanitize(fetched), rustc_prefix())
            ==> stored_label(language, fetched) == sanitize(fetched),
        language == Language::Cpp ==> stored_label(language, fetched) == sanitize(fetched),
{
    let clean = sanitize(fetched);
    let prefix = rustc_prefix();
    if language == Language::Rust && starts_with(clean, prefix) {
        assert(clean.take(prefix.len() as int) + clean.skip(prefix.len() as int) =~= clean);
    }
}

/// Cleaning two marked texts in a row gives the two cleaned texts in a row.
pub proof fn lemma_cleaned_concat(a: Seq<(char, bool)>, b: Seq<(char, bool)>)
    ensures
        cleaned(a + b) == cleaned(a) + cleaned(b),
{
    let keep = |m: (char, bool)| keeps(m);
    let lower = |m: (char, bool)| ascii_lowercase(m.0);
    Seq::filter_distributes_over_add(a, b, keep);
    assert((a.filter(keep) + b.filter(keep)).map_values(lower) =~= a.filter(keep).map_values(lower)
        + b.filter(keep).map_values(lower));
}

/// Cleaning the text `rustc `, with its letters marked as alphanumeric and its blank not,
/// leaves `rustc`.
pub proof fn lemma_cleaned_rustc_prefix()
    ensures
        cleaned(rustc_prefix_marks()) == rustc_prefix(),
{
    let marks = rustc_prefix_marks();
    reveal_strlit("rustc");
    reveal(Seq::filter);
    assert(cleaned(marks.take(0)) =~= Seq::<char>::empty());
    lemma_cleaned_step(marks, 0);
    lemma_cleaned_step(marks, 1);
    lemma_cleaned_step(marks, 2);
    lemma_cleaned_step(marks, 3);
    lemma_cleaned_step(marks, 4);
    lemma_cleaned_step(marks, 5);
    assert(marks.take(6) =~= marks);
    assert(cleaned(marks) =~= rustc_prefix());
}

/// A Rust label that begins with `rustc ` is stored without it: what is stored is the cleaned
/// form of what follows the prefix. The characters come with their marks, those of the prefix
/// as they are for `rustc `.
pub proof fn lemma_rustc_prefix_is_stripped(rest: Seq<(char, bool)>)
    ensures
        stored_from_marks(Language::Rust, rustc_prefix_marks() + rest) == cleaned(rest),
        stored_from_marks(Language::Cpp, rustc_prefix_marks() + rest) == rustc_prefix() + cleaned(
            rest,
        ),
{
    let head = rustc_prefix_marks();
    lemma_cleaned_rustc_prefix();
    lemma_cleaned_concat(head, rest);
    let whole = cleaned(head + rest);
    let prefix = rustc_prefix();
    assert(whole.take(prefix.len() as int) =~= prefix);
    assert(whole.skip(prefix.len() as int) =~= cleaned(rest));
}

/// Each character of the label, paired with whether it is alphanumeric.
pub fn mark_alphanumeric(label: &str) -> (marked: Vec<(char, bool)>)
    ensures
        marked@ == alphanumeric_marks(label@),
{
    let chars = to_chars(label);
    let mut marked: Vec<(char, bool)> = Vec::new();
    let mut i: usize = 0;
    while i < chars.len()
        invariant
            i <= chars.len(),
            marked@.len() == i,
            forall|j: int|
                0 <= j < i ==> marked@[j] == (chars@[j], unicode_alphanumeric(chars@[j])),
        decreases chars.len() - i,
    {
        let c = chars[i];
        marked.push((c, c.is_alphanumeric()));
        i += 1;
    }
    assert(marked@ =~= alphanumeric_marks(label@));
    marked
}

/// The cleaned form of a label whose characters are marked.
pub fn clean_marked(marked: &Vec<(char, bool)>) -> (r: String)
    ensures
        r@ == cleaned(marked@),
{
    let mut r = String::new();
    let mut i: usize = 0;
    proof {
        reveal(Seq::filter);
        assert(cleaned(marked@.take(0)) =~= Seq::<char>::empty());
    }
    while i < marked.len()
        invariant
            i <= marked.len(),
            r@ == cleaned(marked@.take(i as int)),
        decreases marked.len() - i,
    {
        let (c, alphanumeric) = marked[i];
        proof {
            lemma_cleaned_step(marked@, i as int);
        }
        if alphanumeric || c == '.' || c == '-' || c == '_' {
            r.push(to_ascii_lowercase(c));
        }
        i += 1;
    }
    assert(marked@.take(i as int) =~= marked@);
    r
}

/// The cleaned form of a version label.
pub fn sanitize_label(label: &str) -> (r: String)
    ensures
        r@ == sanitize(label@),
{
    let marked = mark_alphanumeric(label);
    clean_marked(&marked)
}

/// The text without `prefix` where it begins with it, unchanged where it does not.
pub fn strip_prefix_exec(s: String, prefix: &str) -> (r: String)
    ensures
        r@ == strip_prefix(s@, prefix@),
{
    let chars = to_chars(s.as_str());
    let p = to_chars(prefix);
    proof {
        if p.len() <= chars.len() {
            assert(chars@.take(p.len() as int) =~= chars@.subrange(0, 0 + p.len()));
        }
    }
    if occurs_at_exec(&chars, &p, 0) {
        let r = from_chars(&chars, p.len(), chars.len());
        assert(chars@.subrange(p.len() as int, chars.len() as int) =~= chars@.skip(
            p.len() as int,
        ));
        r
    } else {
        s
    }
}

/// The label under which a target of `language` is stored, from the marked characters of the
/// label that was fetched.
pub fn store_marked(language: Language, marked: &Vec<(char, bool)>) -> (r: String)
    ensures
        r@ == stored_from_marks(language, marked@),
{
    let clean = clean_marked(marked);
    match language {
        Language::Rust => strip_prefix_exec(clean, "rustc"),
        Language::Cpp => clean,
    }
}

impl GodboltTarget {
    /// Replaces the version label by its cleaned form; the service sends labels with brackets,
    /// spaces and capitals in them.
    pub fn clean_request_data(&mut self)
        ensures
            final(self)@ == (TargetView { semver: sanitize(old(self).semver@), ..old(self)@ }),
    {
        self.semver = sanitize_label(self.semver.as_str());
    }

    /// The target as it is stored in the catalog of `language`.
    pub fn stored(&self, language: Language) -> (r: GodboltTarget)
        ensures
            r@ == stored_target(language, self@),
    {
        let mut target = GodboltTarget {
            id: self.id.clone(),
            name: self.name.clone(),
            semver: self.semver.clone(),
            instruction_set: self.instruction_set.clone(),
        };
        target.clean_request_data();
        match language {
            Language::Rust => {
                let GodboltTarget { id, name, semver, instruction_set } = target;
                GodboltTarget {
                    id,
                    name,
                    semver: strip_prefix_exec(semver, "rustc"),
                    instruction_set,
                }
            },
            Language::Cpp => target,
        }
    }
}

/// The refresh period in seconds, from the configured text if there is one.
pub fn update_period(configured: Option<&str>) -> (secs: u64)
    ensures
        secs == configured_period(
            match configured {
                Some(text) => Some(text@),
                None => None,
            },
        ),
{
    match configured {
        Some(text) => match parse_u64(text) {
            Some(secs) => secs,
            None => DEFAULT_UPDATE_PERIOD_SECS,
        },
        None => DEFAULT_UPDATE_PERIOD_SECS,
    }
}

/// Address of the compiler list of a language.
pub fn compilers_url(language: Language) -> (url: String)
    ensures
        url@ == compilers_url_view(language),
{
    let mut url = String::new();
    url.append("https://godbolt.org/api/compilers/");
    url.append(language.name());
    assert(url@ =~= compilers_url_view(language));
    url
}

/// Address of the library list of a language.
pub fn libraries_url(language: Language) -> (url: String)
    ensures
        url@ == libraries_url_view(language),
{
    let mut url = String::new();
    url.append("https://godbolt.org/api/libraries/");
    url.append(language.name());
    assert(url@ =~= libraries_url_view(language));
    url
}

impl GodboltMetadata {
    /// A catalog that was never filled holds nothing, and every label in a catalog is clean.
    #[verifier::type_invariant]
    pub closed spec fn well_formed(self) -> bool {
        &&& self.last_update_time is None ==> self.targets@.len() == 0 && self.libraries@.len()
            == 0
        &&& forall|i: int|
            0 <= i < self.targets@.len() ==> is_clean_label(#[trigger] self.targets@[i].semver@)
    }

    /// The targets of the catalog, in the order in which they were fetched.
    pub closed spec fn target_list(&self) -> Seq<GodboltTarget> {
        self.targets@
    }

    /// The libraries of the catalog, as they were fetched.
    pub closed spec fn library_list(&self) -> Seq<GodboltLibrary> {
        self.libraries@
    }

    /// When the catalog was last filled, if ever.
    pub closed spec fn last_update(&self) -> Option<u128> {
        self.last_update_time
    }

    /// The catalog before its first refresh: empty, and never filled.
    pub fn new() -> (r: GodboltMetadata)
        ensures
            r.target_list() == Seq::<GodboltTarget>::empty(),
            r.library_list() == Seq::<GodboltLibrary>::empty(),
            r.last_update() is None,
    {
        GodboltMetadata { targets: Vec::new(), libraries: Vec::new(), last_update_time: None }
    }

    /// The targets of the catalog. Each label among them is clean.
    pub fn targets(&self) -> (r: &Vec<GodboltTarget>)
        ensures
            r@ == self.target_list(),
            forall|i: int| 0 <= i < r@.len() ==> is_clean_label(#[trigger] r@[i].semver@),
            self.last_update() is None ==> r@.len() == 0,
    {
        proof {
            use_type_invariant(self);
        }
        &self.targets
    }

    /// The libraries of the catalog.
    pub fn libraries(&self) -> (r: &Vec<GodboltLibrary>)
        ensures
            r@ == self.library_list(),
            self.last_update() is None ==> r@.len() == 0,
    {
        proof {
            use_type_invariant(self);
        }
        &self.libraries
    }

    /// When the catalog was last filled, if ever.
    pub fn last_update_time(&self) -> (r: Option<u128>)
        ensures
            r == self.last_update(),
    {
        self.last_update_time
    }

    /// Whether the catalog must be refreshed before it is read at time `now`.
    pub fn needs_update(&self, now: u128, period_secs: u64) -> (r: bool)
        ensures
            r == is_stale(self.last_update(), now, period_secs),
    {
        match self.last_update_time {
            None => true,
            Some(last) => {
                let since: u128 = if now >= last {
                    now - last
                } else {
                    0
                };
                let period: u128 = (period_secs as u128) * NANOS_PER_SEC;
                since > period
            },
        }
    }

    /// What to do before the targets are read at time `now`: nothing where the catalog is
    /// fresh, else one fetch of the compiler list and one of the library list.
    pub fn plan_update(&self, language: Language, now: u128, period_secs: u64) -> (r:
        CacheAction)
        ensures
            match r {
                CacheAction::UseCached => !is_stale(self.last_update(), now, period_secs),
                CacheAction::Fetch { compilers_url, libraries_url } => {
                    &&& is_stale(self.last_update(), now, period_secs)
                    &&& compilers_url@ == compilers_url_view(language)
                    &&& libraries_url@ == libraries_url_view(language)
                },
            },
    {
        if self.needs_update(now, period_secs) {
            CacheAction::Fetch {
                compilers_url: compilers_url(language),
                libraries_url: libraries_url(language),
            }
        } else {
            CacheAction::UseCached
        }
    }

    /// Replaces the whole catalog by what was fetched at time `now`: the targets cleaned, in
    /// their order, and the libraries as they are.
    pub fn refresh(
        &mut self,
        language: Language,
        targets: Vec<GodboltTarget>,
        libraries: Vec<GodboltLibrary>,
        now: u128,
    )
        ensures
            target_views(final(self).target_list()) == stored_targets(
                language,
                target_views(targets@),
            ),
            final(self).target_list().len() == targets@.len(),
            final(self).library_list() == libraries@,
            final(self).last_update() == Some(now),
    {
        let mut cleaned: Vec<GodboltTarget> = Vec::new();
        let mut i: usize = 0;
        while i < targets.len()
            invariant
                i <= targets.len(),
                cleaned@.len() == i,
                forall|j: int|
                    0 <= j < i ==> (#[trigger] cleaned@[j])@ == stored_target(
                        language,
                        targets@[j]@,
                    ),
            decreases targets.len() - i,
        {
            cleaned.push(targets[i].stored(language));
            i += 1;
        }
        proof {
            assert(target_views(cleaned@) =~= stored_targets(language, target_views(targets@)));
            assert forall|j: int| 0 <= j < cleaned@.len() implies is_clean_label(
                #[trigger] cleaned@[j].semver@,
            ) by {
                lemma_stored_label_is_clean(language, targets@[j].semver@);
            }
        }
        *self = GodboltMetadata { targets: cleaned, libraries, last_update_time: Some(now) };
    }

    /// Ends a refresh that was planned: stores what was fetched, or keeps the catalog as it
    /// is where the fetch failed.
    pub fn finish_update(
        &mut self,
        language: Language,
        fetched: Option<(Vec<GodboltTarget>, Vec<GodboltLibrary>)>,
        now: u128,
    )
        ensures
            match fetched {
                Some((targets, libraries)) => {
                    &&& target_views(final(self).target_list()) == stored_targets(
                        language,
                        target_views(targets@),
                    )
                    &&& final(self).target_list().len() == targets@.len()
                    &&& final(self).library_list() == libraries@
                    &&& final(self).last_update() == Some(now)
                },
                None => *final(self) == *old(self),
            },
    {
        match fetched {
            Some((targets, libraries)) => self.refresh(language, targets, libraries, now),
            None => {},
        }
    }
}

impl Default for GodboltMetadata {
    fn default() -> (r: GodboltMetadata)
        ensures
            r.target_list() == Seq::<GodboltTarget>::empty(),
            r.library_list() == Seq::<GodboltLibrary>::empty(),
            r.last_update() is None,
    {
        GodboltMetadata::new()
    }
}

/// A catalog that was filled no more than a whole period ago is fresh: it is read as it is
/// and nothing is fetched.
pub proof fn lemma_fresh_within_period(refreshed_at: u128, now: u128, period_secs: u64)
    requires
        elapsed(refreshed_at, now) <= period_secs * NANOS_PER_SEC,
    ensures
        !is_stale(Some(refreshed_at), now, period_secs),
{
}

/// A catalog that was never filled is stale at any time and for any period. One that was
/// filled is stale exactly when its age exceeds the period, and never while the clock shows a
/// time before the one at which it was filled.
pub proof fn lemma_stale_when_due(last_update: Option<u128>, now: u128, period_secs: u64)
    ensures
        last_update is None ==> is_stale(last_update, now, period_secs),
        last_update is Some && now >= last_update->0 ==> (is_stale(
            last_update,
            now,
            period_secs,
        ) <==> now - last_update->0 > period_secs * NANOS_PER_SEC),
        last_update is Some && now < last_update->0 ==> !is_stale(last_update, now, period_secs),
{
}

/// Once a catalog is stale it stays stale as time goes on, until it is filled again.
pub proof fn lemma_stale_stays_stale(
    last_update: Option<u128>,
    now: u128,
    later: u128,
    period_secs: u64,
)
    requires
        now <= later,
        is_stale(last_update, now, period_secs),
    ensures
        is_stale(last_update, later, period_secs),
{
}

} // verus!
