//! Path completion engine for the command position: builtin names and
//! executable entries from the search-path directories are matched against
//! the typed prefix, and the engine proposes a full completion, the longest
//! common extension, or the list of all candidates.
//!
//! Reading the search-path directories is the caller's part; the engine takes
//! the entries (name and executable bit) as plain values and is verified on
//! every listing.
use crate::parser::{has_blank, is_blank};
use crate::strutil::{
    clone_string_vec, contains_char, lex_leq_fn, lex_sorted, sort_strings, starts_with_prefix,
};
use vstd::prelude::*;
use vstd::string::*;

verus! {

/// One completion candidate: the name displayed to the user and the text
/// that replaces the typed prefix.
pub struct Completion {
    pub display: String,
    pub replacement: String,
}

/// Mathematical image of a [`Completion`].
#[verifier::ext_equal]
pub struct CompletionView {
    pub display: Seq<char>,
    pub replacement: Seq<char>,
}

impl View for Completion {
    type V = CompletionView;

    open spec fn view(&self) -> CompletionView {
        CompletionView { display: self.display@, replacement: self.replacement@ }
    }
}

impl DeepView for Completion {
    type V = CompletionView;

    open spec fn deep_view(&self) -> CompletionView {
        self.view()
    }
}

/// One directory entry of a search-path directory, as the engine sees it:
/// its file name and whether any executable permission bit is set.
pub struct EntryInfo {
    pub name: String,
    pub executable: bool,
}

/// Mathematical image of an [`EntryInfo`].
#[verifier::ext_equal]
pub struct EntryView {
    pub name: Seq<char>,
    pub executable: bool,
}

impl View for EntryInfo {
    type V = EntryView;

    open spec fn view(&self) -> EntryView {
        EntryView { name: self.name@, executable: self.executable }
    }
}

impl DeepView for EntryInfo {
    type V = EntryView;

    open spec fn deep_view(&self) -> EntryView {
        self.view()
    }
}

/// A candidate accepted whole: the name, replaced by the name plus a
/// trailing space.
pub open spec fn completion_for(name: Seq<char>) -> CompletionView {
    CompletionView { display: name, replacement: name.push(' ') }
}

pub open spec fn builtin_candidate(prefix: Seq<char>, name: Seq<char>) -> Seq<CompletionView> {
    if prefix.is_prefix_of(name) {
        seq![completion_for(name)]
    } else {
        Seq::empty()
    }
}

/// The builtin names extending `prefix`, each offered as a full replacement
/// with a trailing space, in the fixed order cd, echo, exit, pwd, type.
pub open spec fn builtin_completion_candidates(prefix: Seq<char>) -> Seq<CompletionView> {
    builtin_candidate(prefix, "cd"@) + builtin_candidate(prefix, "echo"@) + builtin_candidate(
        prefix,
        "exit"@,
    ) + builtin_candidate(prefix, "pwd"@) + builtin_candidate(prefix, "type"@)
}

fn push_builtin_candidate(completions: &mut Vec<Completion>, prefix: &str, name: &str)
    ensures
        final(completions).deep_view() == old(completions).deep_view() + builtin_candidate(
            prefix@,
            name@,
        ),
{
    let ghost before = completions.deep_view();
    if starts_with_prefix(name, prefix) {
        let display = String::from_str(name);
        let mut replacement = String::from_str(name);
        replacement.append(" ");
        completions.push(Completion { display, replacement });
        proof {
            reveal_strlit(" ");
            assert(name@ + " "@ =~= name@.push(' '));
            assert(completions.deep_view() =~= before + builtin_candidate(prefix@, name@));
        }
    } else {
        proof {
            assert(completions.deep_view() =~= before + builtin_candidate(prefix@, name@));
        }
    }
}

/// The builtin-name completions for `prefix`, per
/// [`builtin_completion_candidates`].
pub fn get_builtin_completions(prefix: &str) -> (r: Vec<Completion>)
    ensures
        r.deep_view() == builtin_completion_candidates(prefix@),
{
    let mut completions: Vec<Completion> = Vec::new();
    push_builtin_candidate(&mut completions, prefix, "cd");
    push_builtin_candidate(&mut completions, prefix, "echo");
    push_builtin_candidate(&mut completions, prefix, "exit");
    push_builtin_candidate(&mut completions, prefix, "pwd");
    push_builtin_candidate(&mut completions, prefix, "type");
    proof {
        assert(completions.deep_view() =~= builtin_completion_candidates(prefix@));
    }
    completions
}

/// Whether a directory entry is a completion match for `prefix`: it must be
/// executable and its name must extend the prefix.
pub open spec fn entry_matches(e: EntryView, prefix: Seq<char>) -> bool {
    e.executable && prefix.is_prefix_of(e.name)
}

/// The names of the matching entries, in listing order.
pub open spec fn executable_matches(entries: Seq<EntryView>, prefix: Seq<char>) -> Seq<Seq<char>>
    decreases entries.len(),
{
    if entries.len() == 0 {
        Seq::empty()
    } else {
        let rest = executable_matches(entries.drop_last(), prefix);
        if entry_matches(entries.last(), prefix) {
            rest.push(entries.last().name)
        } else {
            rest
        }
    }
}

/// The engine's match list for a typed prefix: the matching executable
/// names, sorted lexicographically.
pub open spec fn sorted_matches(entries: Seq<EntryView>, prefix: Seq<char>) -> Seq<Seq<char>> {
    executable_matches(entries, prefix).sort_by(lex_leq_fn())
}

/// The match list holds exactly the matching entry names — nothing added,
/// nothing lost — in lexicographic order.
pub proof fn lemma_sorted_matches_ensures(entries: Seq<EntryView>, prefix: Seq<char>)
    ensures
        lex_sorted(sorted_matches(entries, prefix)),
        sorted_matches(entries, prefix).to_multiset() == executable_matches(
            entries,
            prefix,
        ).to_multiset(),
{
    crate::strutil::lemma_lex_total_ordering();
    executable_matches(entries, prefix).lemma_sort_by_ensures(lex_leq_fn());
}

/// Selects and sorts the executable entries whose names extend the prefix,
/// exactly as typed.
pub fn find_executables(prefix: &str, entries: &Vec<EntryInfo>) -> (r: Vec<String>)
    ensures
        r.deep_view() == sorted_matches(entries.deep_view(), prefix@),
        lex_sorted(r.deep_view()),
{
    let mut matches: Vec<String> = Vec::new();
    let mut i: usize = 0;
    proof {
        assert(matches.deep_view() =~= executable_matches(
            entries.deep_view().take(0),
            prefix@,
        ));
    }
    while i < entries.len()
        invariant
            i <= entries@.len(),
            matches.deep_view() =~= executable_matches(
                entries.deep_view().take(i as int),
                prefix@,
            ),
        decreases entries@.len() - i,
    {
        let ghost before = matches.deep_view();
        proof {
            let pre = entries.deep_view().take(i as int);
            let post = entries.deep_view().take(i as int + 1);
            assert(post.drop_last() =~= pre);
            assert(post.last() == entries.deep_view()[i as int]);
        }
        if entries[i].executable && starts_with_prefix(entries[i].name.as_str(), prefix) {
            matches.push(entries[i].name.clone());
            proof {
                assert(matches.deep_view() =~= before.push(
                    entries.deep_view()[i as int].name,
                ));
            }
        }
        proof {
            assert(matches.deep_view() =~= executable_matches(
                entries.deep_view().take(i as int + 1),
                prefix@,
            ));
        }
        i += 1;
    }
    proof {
        assert(entries.deep_view().take(entries@.len() as int) =~= entries.deep_view());
    }
    sort_strings(matches)
}

/// The number of leading characters `a` and `b` share.
pub open spec fn lcp_len(a: Seq<char>, b: Seq<char>) -> nat
    decreases a.len(),
{
    if a.len() == 0 || b.len() == 0 || a[0] != b[0] {
        0
    } else {
        1 + lcp_len(a.skip(1), b.skip(1))
    }
}

/// The longest common prefix of two sequences.
pub open spec fn common_prefix2(a: Seq<char>, b: Seq<char>) -> Seq<char> {
    a.take(lcp_len(a, b) as int)
}

/// The longest common prefix of all sequences in `ms`: the one element when
/// there is only one, empty when there are none.
pub open spec fn common_prefix_of(ms: Seq<Seq<char>>) -> Seq<char>
    decreases ms.len(),
{
    if ms.len() == 0 {
        Seq::empty()
    } else if ms.len() == 1 {
        ms[0]
    } else {
        common_prefix2(common_prefix_of(ms.drop_last()), ms.last())
    }
}

proof fn lemma_lcp_len_bounds(a: Seq<char>, b: Seq<char>)
    ensures
        lcp_len(a, b) <= a.len(),
        lcp_len(a, b) <= b.len(),
        forall|k: int| 0 <= k < lcp_len(a, b) ==> a[k] == b[k],
    decreases a.len(),
{
    if a.len() > 0 && b.len() > 0 && a[0] == b[0] {
        lemma_lcp_len_bounds(a.skip(1), b.skip(1));
        assert forall|k: int| 0 <= k < lcp_len(a, b) implies a[k] == b[k] by {
            if k >= 1 {
                assert(a[k] == a.skip(1)[k - 1]);
                assert(b[k] == b.skip(1)[k - 1]);
            }
        }
    }
}

/// Characterizes [`lcp_len`]: a shared prefix of length `n` that cannot be
/// extended is the longest one.
proof fn lemma_lcp_len_is(a: Seq<char>, b: Seq<char>, n: int)
    requires
        0 <= n <= a.len(),
        n <= b.len(),
        forall|k: int| 0 <= k < n ==> a[k] == b[k],
        n == a.len() || n == b.len() || a[n] != b[n],
    ensures
        lcp_len(a, b) == n,
    decreases n,
{
    if n == 0 {
    } else {
        assert(a[0] == b[0]);
        assert forall|k: int| 0 <= k < n - 1 implies a.skip(1)[k] == b.skip(1)[k] by {
            assert(a.skip(1)[k] == a[k + 1]);
            assert(b.skip(1)[k] == b[k + 1]);
        }
        if n < a.len() && n < b.len() {
            assert(a.skip(1)[n - 1] == a[n]);
            assert(b.skip(1)[n - 1] == b[n]);
        }
        lemma_lcp_len_is(a.skip(1), b.skip(1), n - 1);
    }
}

proof fn lemma_lcp_len_at_least(a: Seq<char>, b: Seq<char>, n: int)
    requires
        0 <= n <= a.len(),
        n <= b.len(),
        forall|k: int| 0 <= k < n ==> a[k] == b[k],
    ensures
        lcp_len(a, b) >= n,
    decreases n,
{
    if n > 0 {
        assert(a[0] == b[0]);
        assert forall|k: int| 0 <= k < n - 1 implies a.skip(1)[k] == b.skip(1)[k] by {
            assert(a.skip(1)[k] == a[k + 1]);
            assert(b.skip(1)[k] == b[k + 1]);
        }
        lemma_lcp_len_at_least(a.skip(1), b.skip(1), n - 1);
    }
}

proof fn lemma_prefix_transitive(p: Seq<char>, q: Seq<char>, r: Seq<char>)
    requires
        p.is_prefix_of(q),
        q.is_prefix_of(r),
    ensures
        p.is_prefix_of(r),
{
    assert forall|k: int| 0 <= k < p.len() implies p[k] == r[k] by {
        assert(p[k] == q.subrange(0, p.len() as int)[k]);
        assert(q[k] == r.subrange(0, q.len() as int)[k]);
    }
    assert(p =~= r.subrange(0, p.len() as int));
}

/// The common prefix of a candidate list is a prefix of every candidate.
pub proof fn lemma_common_prefix_is_common(ms: Seq<Seq<char>>)
    ensures
        forall|i: int| 0 <= i < ms.len() ==> common_prefix_of(ms).is_prefix_of(#[trigger] ms[i]),
    decreases ms.len(),
{
    if ms.len() == 1 {
        assert(ms[0] =~= ms[0].subrange(0, ms[0].len() as int));
    } else if ms.len() > 1 {
        let rest = ms.drop_last();
        let cp0 = common_prefix_of(rest);
        let cp = common_prefix_of(ms);
        lemma_common_prefix_is_common(rest);
        lemma_lcp_len_bounds(cp0, ms.last());
        let l = lcp_len(cp0, ms.last()) as int;
        assert(cp == cp0.take(l));
        assert(cp.is_prefix_of(cp0)) by {
            assert(cp =~= cp0.subrange(0, cp.len() as int));
        }
        assert(cp.is_prefix_of(ms.last())) by {
            assert forall|k: int| 0 <= k < l implies cp[k] == ms.last()[k] by {
                assert(cp[k] == cp0[k]);
            }
            assert(cp =~= ms.last().subrange(0, cp.len() as int));
        }
        assert forall|i: int| 0 <= i < ms.len() implies cp.is_prefix_of(#[trigger] ms[i]) by {
            if i < ms.len() - 1 {
                assert(rest[i] == ms[i]);
                assert(cp0.is_prefix_of(rest[i]));
                lemma_prefix_transitive(cp, cp0, ms[i]);
            } else {
                assert(ms[i] == ms.last());
            }
        }
    }
}

/// No longer common prefix exists: whatever is a prefix of every candidate
/// is a prefix of the common prefix.
pub proof fn lemma_common_prefix_maximal(ms: Seq<Seq<char>>, p: Seq<char>)
    requires
        ms.len() > 0,
        forall|i: int| 0 <= i < ms.len() ==> p.is_prefix_of(#[trigger] ms[i]),
    ensures
        p.is_prefix_of(common_prefix_of(ms)),
    decreases ms.len(),
{
    if ms.len() == 1 {
        assert(p.is_prefix_of(ms[0]));
    } else {
        let rest = ms.drop_last();
        let cp0 = common_prefix_of(rest);
        let last = ms.last();
        assert forall|i: int| 0 <= i < rest.len() implies p.is_prefix_of(#[trigger] rest[i]) by {
            assert(rest[i] == ms[i]);
        }
        lemma_common_prefix_maximal(rest, p);
        assert(p.is_prefix_of(ms[ms.len() - 1]));
        assert(p.is_prefix_of(last));
        assert forall|k: int| 0 <= k < p.len() implies cp0[k] == last[k] by {
            assert(p[k] == cp0.subrange(0, p.len() as int)[k]);
            assert(p[k] == last.subrange(0, p.len() as int)[k]);
        }
        lemma_lcp_len_at_least(cp0, last, p.len() as int);
        lemma_lcp_len_bounds(cp0, last);
        let l = lcp_len(cp0, last) as int;
        let cp = common_prefix_of(ms);
        assert(cp == cp0.take(l));
        assert forall|k: int| 0 <= k < p.len() implies p[k] == cp[k] by {
            assert(p[k] == cp0.subrange(0, p.len() as int)[k]);
            assert(cp[k] == cp0[k]);
        }
        assert(p =~= cp.subrange(0, p.len() as int));
    }
}

/// The longest common prefix of the match list, character-wise: the first
/// match truncated at the first position where some match diverges.
pub fn find_longest_common_prefix(matches: &Vec<String>) -> (r: String)
    ensures
        r@ == common_prefix_of(matches.deep_view()),
{
    if matches.len() == 0 {
        return String::new();
    }
    let first = &matches[0];
    let flen = first.as_str().unicode_len();
    let mut common_prefix_len: usize = flen;
    let mut idx: usize = 1;
    proof {
        assert(first@.take(flen as int) =~= first@);
        assert(matches.deep_view().take(1)[0] == first@);
    }
    while idx < matches.len()
        invariant
            1 <= idx <= matches@.len(),
            flen == matches.deep_view()[0].len(),
            first@ == matches.deep_view()[0],
            common_prefix_len <= flen,
            first@.take(common_prefix_len as int) == common_prefix_of(
                matches.deep_view().take(idx as int),
            ),
        decreases matches@.len() - idx,
    {
        let cur = &matches[idx];
        let curlen = cur.as_str().unicode_len();
        let mut j: usize = 0;
        while j < common_prefix_len && j < curlen && first.as_str().get_char(j)
            == cur.as_str().get_char(j)
            invariant
                j <= common_prefix_len,
                j <= curlen,
                common_prefix_len <= flen,
                flen == first@.len(),
                curlen == cur@.len(),
                forall|k: int| 0 <= k < j ==> first@[k] == cur@[k],
            decreases common_prefix_len - j,
        {
            j += 1;
        }
        proof {
            let p = first@.take(common_prefix_len as int);
            assert forall|k: int| 0 <= k < j implies p[k] == cur@[k] by {
                assert(p[k] == first@[k]);
            }
            if (j as int) < common_prefix_len && (j as int) < curlen {
                assert(p[j as int] == first@[j as int]);
                assert(first@[j as int] != cur@[j as int]);
            }
            lemma_lcp_len_is(p, cur@, j as int);
            assert(common_prefix2(p, cur@) =~= first@.take(j as int));
            let pre = matches.deep_view().take(idx as int);
            let post = matches.deep_view().take(idx as int + 1);
            assert(post.drop_last() =~= pre);
            assert(post.last() == cur@);
        }
        common_prefix_len = j;
        idx += 1;
    }
    proof {
        assert(matches.deep_view().take(matches@.len() as int) =~= matches.deep_view());
    }
    String::from_str(first.as_str().substring_char(0, common_prefix_len))
}

/// What one completion request proposes.
pub enum CompletionOutcome {
    /// The prefix holds whitespace: only the command name is completed, so
    /// nothing is proposed.
    NotCommandPosition,
    /// Builtin names match; each is offered as a full replacement.
    Builtins { completions: Vec<Completion> },
    /// No candidate at all: alert and propose no change.
    NoMatch,
    /// Exactly one executable matches: its name plus a trailing space.
    Single { completion: Completion },
    /// Several match and share a longer common prefix: that prefix, without
    /// a trailing space.
    Extend { completion: Completion },
    /// Several match and the prefix cannot be extended: list them all,
    /// proposing no change.
    ShowAll { matches: Vec<String> },
}

/// Mathematical image of a [`CompletionOutcome`].
#[verifier::ext_equal]
pub enum OutcomeView {
    NotCommandPosition,
    Builtins { completions: Seq<CompletionView> },
    NoMatch,
    Single { completion: CompletionView },
    Extend { completion: CompletionView },
    ShowAll { matches: Seq<Seq<char>> },
}

impl View for CompletionOutcome {
    type V = OutcomeView;

    open spec fn view(&self) -> OutcomeView {
        match self {
            CompletionOutcome::NotCommandPosition => OutcomeView::NotCommandPosition,
            CompletionOutcome::Builtins { completions } => OutcomeView::Builtins {
                completions: completions.deep_view(),
            },
            CompletionOutcome::NoMatch => OutcomeView::NoMatch,
            CompletionOutcome::Single { completion } => OutcomeView::Single {
                completion: completion@,
            },
            CompletionOutcome::Extend { completion } => OutcomeView::Extend {
                completion: completion@,
            },
            CompletionOutcome::ShowAll { matches } => OutcomeView::ShowAll {
                matches: matches.deep_view(),
            },
        }
    }
}

/// The engine's policy on a command-position prefix: builtin matches take
/// precedence; with none, no executable match alerts, a unique match
/// completes whole, a longer shared prefix extends without a trailing space,
/// and an unextendable prefix lists every match.
pub open spec fn planned_completion(prefix: Seq<char>, entries: Seq<EntryView>) -> OutcomeView {
    let bs = builtin_completion_candidates(prefix);
    let ms = sorted_matches(entries, prefix);
    if bs.len() > 0 {
        OutcomeView::Builtins { completions: bs }
    } else if ms.len() == 0 {
        OutcomeView::NoMatch
    } else if ms.len() == 1 {
        OutcomeView::Single { completion: completion_for(ms[0]) }
    } else if common_prefix_of(ms).len() > prefix.len() {
        OutcomeView::Extend {
            completion: CompletionView {
                display: common_prefix_of(ms),
                replacement: common_prefix_of(ms),
            },
        }
    } else {
        OutcomeView::ShowAll { matches: ms }
    }
}

/// The completion engine: the search-path directories it completes from and
/// the progressive-completion memory, updated when a partial extension is
/// proposed.
pub struct BuiltInCompleter {
    pub paths: Vec<String>,
    pub last_prefix: String,
    pub last_matches: Vec<String>,
}

impl BuiltInCompleter {
    /// A completer over the given search-path directories, with empty
    /// progressive state.
    pub fn new(paths: Vec<String>) -> (c: BuiltInCompleter)
        ensures
            c.paths == paths,
            c.last_prefix@ == Seq::<char>::empty(),
            c.last_matches@.len() == 0,
    {
        BuiltInCompleter { paths, last_prefix: String::new(), last_matches: Vec::new() }
    }

    /// One completion request for a command-position prefix, deciding per
    /// [`planned_completion`] over the given directory entries. A partial
    /// extension records the extended prefix and the match list; every other
    /// outcome leaves the progressive state untouched.
    pub fn handle_completion(&mut self, prefix: &str, entries: &Vec<EntryInfo>) -> (r:
        CompletionOutcome)
        ensures
            r@ == planned_completion(prefix@, entries.deep_view()),
            final(self).paths == old(self).paths,
            (match r@ {
                OutcomeView::Extend { completion } => {
                    &&& final(self).last_prefix@ == completion.display
                    &&& final(self).last_matches.deep_view() == sorted_matches(
                        entries.deep_view(),
                        prefix@,
                    )
                },
                _ => final(self).last_prefix == old(self).last_prefix
                    && final(self).last_matches == old(self).last_matches,
            }),
    {
        let builtin_completions = get_builtin_completions(prefix);
        if builtin_completions.len() > 0 {
            return CompletionOutcome::Builtins { completions: builtin_completions };
        }
        let matches = find_executables(prefix, entries);
        if matches.len() == 0 {
            return CompletionOutcome::NoMatch;
        }
        let common_prefix = find_longest_common_prefix(&matches);
        if matches.len() == 1 {
            let display = matches[0].clone();
            let mut replacement = matches[0].clone();
            replacement.append(" ");
            proof {
                reveal_strlit(" ");
                assert(matches.deep_view()[0] + " "@ =~= matches.deep_view()[0].push(' '));
            }
            return CompletionOutcome::Single {
                completion: Completion { display, replacement },
            };
        }
        if common_prefix.as_str().unicode_len() > prefix.unicode_len() {
            self.last_matches = clone_string_vec(&matches);
            self.last_prefix = common_prefix.clone();
            return CompletionOutcome::Extend {
                completion: Completion { display: common_prefix.clone(), replacement: common_prefix },
            };
        }
        CompletionOutcome::ShowAll { matches }
    }

    /// A completion request on a line prefix: a prefix holding whitespace
    /// (space, tab or newline — the shell's token separators) is past the
    /// command position and proposes nothing; otherwise the engine decides
    /// per [`planned_completion`].
    pub fn complete(&mut self, prefix: &str, entries: &Vec<EntryInfo>) -> (r: CompletionOutcome)
        ensures
            has_blank(prefix@) ==> r@ == OutcomeView::NotCommandPosition,
            !has_blank(prefix@) ==> r@ == planned_completion(prefix@, entries.deep_view()),
            final(self).paths == old(self).paths,
            (match r@ {
                OutcomeView::Extend { completion } => {
                    &&& final(self).last_prefix@ == completion.display
                    &&& final(self).last_matches.deep_view() == sorted_matches(
                        entries.deep_view(),
                        prefix@,
                    )
                },
                _ => final(self).last_prefix == old(self).last_prefix
                    && final(self).last_matches == old(self).last_matches,
            }),
    {
        let blank = contains_char(prefix, ' ') || contains_char(prefix, '\t') || contains_char(
            prefix,
            '\n',
        );
        proof {
            if prefix@.contains(' ') {
                let i = choose|i: int| 0 <= i < prefix@.len() && prefix@[i] == ' ';
                assert(is_blank(prefix@[i]));
            } else if prefix@.contains('\t') {
                let i = choose|i: int| 0 <= i < prefix@.len() && prefix@[i] == '\t';
                assert(is_blank(prefix@[i]));
            } else if prefix@.contains('\n') {
                let i = choose|i: int| 0 <= i < prefix@.len() && prefix@[i] == '\n';
                assert(is_blank(prefix@[i]));
            } else {
                assert forall|i: int| 0 <= i < prefix@.len() implies !is_blank(
                    #[trigger] prefix@[i],
                ) by {
                    assert(!prefix@.contains(' '));
                    assert(!prefix@.contains('\t'));
                    assert(!prefix@.contains('\n'));
                }
            }
        }
        if blank {
            return CompletionOutcome::NotCommandPosition;
        }
        self.handle_completion(prefix, entries)
    }
}

} // verus!
