use vstd::prelude::*;
use vstd::utf8::*;
use crate::error::AppError;
use crate::lines::{byte_lines, decode_utf8_bytes, split_lines};

verus! {

/// A structured search request.
#[derive(Debug, Clone)]
pub struct SearchOptions {
    /// Search pattern
    pub pattern: String,
    /// Relative path within the root directory; empty means the root itself
    pub path: String,
    /// Use fixed strings instead of regex (literal search)
    pub fixed_strings: bool,
    /// Case-sensitive search
    pub case_sensitive: bool,
    /// Include line numbers in output
    pub line_numbers: bool,
    /// Number of context lines to show
    pub context_lines: Option<usize>,
    /// File types to include (e.g., "rust", "js")
    pub file_types: Vec<String>,
    /// Maximum depth to search
    pub max_depth: Option<usize>,
}

/// The default of `line_numbers` when a request leaves it out.
pub fn default_true() -> (r: bool)
    ensures
        r,
{
    true
}

/// Counts of a finished search.
#[derive(Debug, Clone)]
pub struct SearchStats {
    pub matched_lines: usize,
    pub elapsed_ms: u64,
}

/// The outcome of a search: the engine's output lines, in the order emitted.
#[derive(Debug, Clone)]
pub struct SearchResult {
    pub matches: Vec<String>,
    pub stats: SearchStats,
}

/// Runs searches below one fixed root directory.
#[derive(Debug)]
pub struct RipgrepSearcher {
    root_dir: String,
}

/// The texts of a sequence of strings.
pub open spec fn texts(v: Seq<String>) -> Seq<Seq<char>> {
    v.map_values(|s: String| s@)
}

/// The character of a decimal digit.
pub open spec fn digit_char(d: nat) -> char {
    if d == 0 { '0' }
    else if d == 1 { '1' }
    else if d == 2 { '2' }
    else if d == 3 { '3' }
    else if d == 4 { '4' }
    else if d == 5 { '5' }
    else if d == 6 { '6' }
    else if d == 7 { '7' }
    else if d == 8 { '8' }
    else { '9' }
}

/// The decimal notation of `n`, without leading zeros.
pub open spec fn decimal(n: nat) -> Seq<char>
    decreases n,
{
    if n < 10 {
        seq![digit_char(n)]
    } else {
        decimal(n / 10) + seq![digit_char(n % 10)]
    }
}

/// A file-type filter flag for each entry, in order.
pub open spec fn type_args(types: Seq<Seq<char>>) -> Seq<Seq<char>>
    decreases types.len(),
{
    if types.len() == 0 {
        seq![]
    } else {
        type_args(types.drop_last()) + seq!["-t"@, types.last()]
    }
}

/// The flag for one optional numeric setting.
pub open spec fn number_args(flag: Seq<char>, value: Option<usize>) -> Seq<Seq<char>> {
    match value {
        Some(v) => seq![flag, decimal(v as nat)],
        None => seq![],
    }
}

/// A flag that is present exactly when `on` holds.
pub open spec fn switch_arg(flag: Seq<char>, on: bool) -> Seq<Seq<char>> {
    if on {
        seq![flag]
    } else {
        seq![]
    }
}

/// The engine's argument list for a request and a resolved target path.
pub open spec fn command_args(o: SearchOptions, search_path: Seq<char>) -> Seq<Seq<char>> {
    seq!["--no-config"@] + switch_arg("-F"@, o.fixed_strings) + switch_arg("-i"@, !o.case_sensitive)
        + switch_arg("-n"@, o.line_numbers) + number_args("-C"@, o.context_lines) + type_args(
        texts(o.file_types@),
    ) + number_args("--max-depth"@, o.max_depth) + seq![o.pattern@, search_path]
}

/// `pre` is a prefix of `s`.
pub open spec fn is_prefix(pre: Seq<char>, s: Seq<char>) -> bool {
    pre.len() <= s.len() && s.subrange(0, pre.len() as int) == pre
}

/// `cand` is `root` or lies below it, compared by whole path components.
pub open spec fn within_root(root: Seq<char>, cand: Seq<char>) -> bool {
    cand == root || (is_prefix(root, cand) && ((root.len() > 0 && root.last() == '/') || (cand.len()
        > root.len() && cand[root.len() as int] == '/')))
}

/// `p` joined onto `root`: an absolute `p` replaces `root`, else one separator stands between.
pub open spec fn joined(root: Seq<char>, p: Seq<char>) -> Seq<char> {
    if p.len() > 0 && p[0] == '/' {
        p
    } else if root.len() == 0 {
        p
    } else if root.last() == '/' {
        root + p
    } else {
        root + seq!['/'] + p
    }
}

/// The engine's exit statuses that mean success: matches found (0) or none found (1).
pub open spec fn exit_success(code: Option<i32>) -> bool {
    code == Some(0i32) || code == Some(1i32)
}

/// The decoded lines of the engine's standard output.
pub open spec fn decoded_lines(out: Seq<u8>) -> Seq<Seq<char>> {
    byte_lines(out).map_values(|l: Seq<u8>| decode_utf8(l))
}

/// The text of a byte sequence with each invalid UTF-8 sequence replaced.
pub uninterp spec fn lossy_utf8(b: Seq<u8>) -> Seq<char>;

/// Relies on String::from_utf8_lossy: the text depends on the bytes alone, and
/// valid UTF-8 is decoded unchanged.
#[verifier::external_body]
fn lossy_text(b: &[u8]) -> (r: String)
    ensures
        r@ == lossy_utf8(b@),
        valid_utf8(b@) ==> r@ == decode_utf8(b@),
{
    String::from_utf8_lossy(b).into_owned()
}

/// Relies on str::starts_with with a string pattern.
#[verifier::external_body]
fn has_prefix(s: &str, prefix: &str) -> (r: bool)
    ensures
        r == is_prefix(prefix@, s@),
{
    s.starts_with(prefix)
}

/// Relies on str::ends_with with a string pattern.
#[verifier::external_body]
fn has_suffix(s: &str, suffix: &str) -> (r: bool)
    ensures
        r == (suffix@.len() <= s@.len() && s@.subrange(s@.len() - suffix@.len(), s@.len() as int)
            == suffix@),
{
    s.ends_with(suffix)
}

fn digit_str(d: usize) -> (r: &'static str)
    requires
        d < 10,
    ensures
        r@ == seq![digit_char(d as nat)],
{
    proof {
        reveal_strlit("0");
        reveal_strlit("1");
        reveal_strlit("2");
        reveal_strlit("3");
        reveal_strlit("4");
        reveal_strlit("5");
        reveal_strlit("6");
        reveal_strlit("7");
        reveal_strlit("8");
        reveal_strlit("9");
    }
    if d == 0 { "0" }
    else if d == 1 { "1" }
    else if d == 2 { "2" }
    else if d == 3 { "3" }
    else if d == 4 { "4" }
    else if d == 5 { "5" }
    else if d == 6 { "6" }
    else if d == 7 { "7" }
    else if d == 8 { "8" }
    else { "9" }
}

/// The decimal notation of `n`.
pub fn decimal_string(n: usize) -> (r: String)
    ensures
        r@ == decimal(n as nat),
    decreases n,
{
    if n < 10 {
        String::from_str(digit_str(n))
    } else {
        let mut s = decimal_string(n / 10);
        s.append(digit_str(n % 10));
        s
    }
}

/// Whether `cand` is `root` or lies below it, compared by whole path components.
pub fn is_within_root(root: &str, cand: &str) -> (r: bool)
    ensures
        r == within_root(root@, cand@),
{
    proof {
        reveal_strlit("/");
    }
    if root.to_owned() == cand.to_owned() {
        return true;
    }
    if !has_prefix(cand, root) {
        return false;
    }
    if has_suffix(root, "/") {
        assert(root@.subrange(root@.len() - 1, root@.len() as int)[0] == root@.last());
        return true;
    }
    let with_sep = String::from_str(root).concat("/");
    let r = has_prefix(cand, with_sep.as_str());
    proof {
        if r {
            assert(cand@.subrange(0, with_sep@.len() as int)[root@.len() as int] == cand@[root@.len() as int]);
            assert(cand@.subrange(0, root@.len() as int) =~= cand@.subrange(0, with_sep@.len() as int).subrange(0, root@.len() as int));
        } else if cand@.len() > root@.len() && cand@[root@.len() as int] == '/' {
            assert(cand@.subrange(0, with_sep@.len() as int) =~= with_sep@);
        }
        if root@.len() > 0 && root@.last() == '/' {
            assert(root@.subrange(root@.len() - 1, root@.len() as int) =~= "/"@);
        }
    }
    r
}

/// `p` joined onto `root`, as a path is joined onto a directory.
pub fn join_path(root: &str, p: &str) -> (r: String)
    ensures
        r@ == joined(root@, p@),
{
    proof {
        reveal_strlit("/");
    }
    if has_prefix(p, "/") {
        assert(p@.subrange(0, 1)[0] == p@[0]);
        return p.to_owned();
    }
    proof {
        if p@.len() > 0 && p@[0] == '/' {
            assert(p@.subrange(0, 1) =~= "/"@);
        }
    }
    if root.is_empty() {
        return p.to_owned();
    }
    if has_suffix(root, "/") {
        assert(root@.subrange(root@.len() - 1, root@.len() as int)[0] == root@.last());
        return String::from_str(root).concat(p);
    }
    proof {
        if root@.last() == '/' {
            assert(root@.subrange(root@.len() - 1, root@.len() as int) =~= "/"@);
        }
    }
    String::from_str(root).concat("/").concat(p)
}

/// The error for a request whose path resolves outside the root.
pub open spec fn is_traversal(r: Result<String, AppError>, path: Seq<char>) -> bool {
    r is Err && r->Err_0 is PathTraversal && r->Err_0->PathTraversal_0@ == path
}

/// The error for a request whose path does not resolve.
pub open spec fn is_invalid_path(r: Result<String, AppError>, path: Seq<char>) -> bool {
    r is Err && r->Err_0 is InvalidPath && r->Err_0->InvalidPath_0@ == path
}

/// The error for a root directory that does not resolve.
pub open spec fn is_unresolved_root(r: Result<String, AppError>) -> bool {
    r is Err && r->Err_0 is ConfigError && r->Err_0->ConfigError_0@
        == "Could not resolve root directory"@
}

/// What a search reports for the engine's output lines, when the engine succeeded.
pub open spec fn reports(r: SearchResult, out: Seq<u8>, elapsed_ms: u64) -> bool {
    &&& texts(r.matches@) == decoded_lines(out)
    &&& r.stats.matched_lines == r.matches@.len()
    &&& r.stats.elapsed_ms == elapsed_ms
}

/// The engine's error for a failed run: the captured error text, labelled.
pub open spec fn engine_failure(r: Result<SearchResult, AppError>, stderr: Seq<u8>) -> bool {
    r is Err && r->Err_0 is RipgrepError && r->Err_0->RipgrepError_0@ == "Ripgrep failed: "@
        + lossy_utf8(stderr)
}

/// The engine's error for output that is not valid UTF-8.
pub open spec fn undecodable_output(r: Result<SearchResult, AppError>) -> bool {
    r is Err && r->Err_0 is RipgrepError && r->Err_0->RipgrepError_0@ == "Invalid UTF-8 in output"@
}

/// Turns the engine's standard output into a search result.
pub fn parse_output(stdout: &Vec<u8>, elapsed_ms: u64) -> (r: Result<SearchResult, AppError>)
    ensures
        r is Ok <==> valid_utf8(stdout@),
        r is Ok ==> reports(r->Ok_0, stdout@, elapsed_ms),
        r is Err ==> undecodable_output(r),
{
    match decode_utf8_bytes(stdout.as_slice()) {
        None => Err(AppError::RipgrepError(String::from_str("Invalid UTF-8 in output"))),
        Some(_) => {
            let matches = split_lines(stdout);
            let matched_lines = matches.len();
            assert(texts(matches@) =~= decoded_lines(stdout@));
            Ok(SearchResult { matches, stats: SearchStats { matched_lines, elapsed_ms } })
        },
    }
}

/// Whether an exit status means that the engine ran fine.
pub fn exit_succeeded(code: Option<i32>) -> (r: bool)
    ensures
        r == exit_success(code),
{
    match code {
        Some(c) => c == 0 || c == 1,
        None => false,
    }
}

impl RipgrepSearcher {
    pub fn new(root_dir: String) -> (r: Self)
        ensures
            r.root_view() == root_dir@,
    {
        Self { root_dir }
    }

    /// The root directory that searches are confined to.
    pub closed spec fn root_view(&self) -> Seq<char> {
        self.root_dir@
    }

    /// The root directory that searches are confined to.
    pub fn root_dir(&self) -> (r: &String)
        ensures
            r@ == self.root_view(),
    {
        &self.root_dir
    }

    /// The path that a relative request path names below the root, before it is resolved.
    pub fn candidate_path(&self, path: &str) -> (r: String)
        ensures
            r@ == joined(self.root_view(), path@),
    {
        join_path(self.root_dir.as_str(), path)
    }

    /// Decides on a request path from the canonical forms of its candidate path and of the
    /// root (`None` where resolving failed): the candidate path is accepted only when it
    /// resolves within the root.
    pub fn validate_path(
        &self,
        path: &str,
        canonical_search_path: Option<String>,
        canonical_root: Option<String>,
    ) -> (r: Result<String, AppError>)
        ensures
            canonical_search_path is None ==> is_invalid_path(r, path@),
            canonical_search_path is Some && canonical_root is None ==> is_unresolved_root(r),
            canonical_search_path is Some && canonical_root is Some ==> {
                let c = canonical_search_path->Some_0@;
                let root = canonical_root->Some_0@;
                &&& !within_root(root, c) ==> is_traversal(r, path@)
                &&& within_root(root, c) ==> r is Ok && r->Ok_0@ == joined(
                    self.root_view(),
                    path@,
                )
            },
    {
        let c = match canonical_search_path {
            Some(c) => c,
            None => {
                return Err(AppError::InvalidPath(path.to_owned()));
            },
        };
        let root = match canonical_root {
            Some(root) => root,
            None => {
                return Err(
                    AppError::ConfigError(String::from_str("Could not resolve root directory")),
                );
            },
        };
        if !is_within_root(root.as_str(), c.as_str()) {
            return Err(AppError::PathTraversal(path.to_owned()));
        }
        Ok(self.candidate_path(path))
    }

    /// The path to search for a request path: the root itself for an empty path, else as
    /// `validate_path` decides.
    pub fn resolve_search_path(
        &self,
        path: &str,
        canonical_search_path: Option<String>,
        canonical_root: Option<String>,
    ) -> (r: Result<String, AppError>)
        ensures
            path@.len() == 0 ==> r is Ok && r->Ok_0@ == self.root_view(),
            path@.len() > 0 && canonical_search_path is None ==> is_invalid_path(r, path@),
            path@.len() > 0 && canonical_search_path is Some && canonical_root is None
                ==> is_unresolved_root(r),
            path@.len() > 0 && canonical_search_path is Some && canonical_root is Some ==> {
                let c = canonical_search_path->Some_0@;
                let root = canonical_root->Some_0@;
                &&& !within_root(root, c) ==> is_traversal(r, path@)
                &&& within_root(root, c) ==> r is Ok && r->Ok_0@ == joined(
                    self.root_view(),
                    path@,
                )
            },
    {
        if path.is_empty() {
            Ok(self.root_dir.clone())
        } else {
            self.validate_path(path, canonical_search_path, canonical_root)
        }
    }

    /// The engine's argument list for a request and its resolved target path.
    pub fn build_command(&self, options: &SearchOptions, search_path: &str) -> (r: Vec<String>)
        ensures
            texts(r@) == command_args(*options, search_path@),
    {
        let mut args: Vec<String> = Vec::new();
        args.push(String::from_str("--no-config"));
        if options.fixed_strings {
            args.push(String::from_str("-F"));
        }
        if !options.case_sensitive {
            args.push(String::from_str("-i"));
        }
        if options.line_numbers {
            args.push(String::from_str("-n"));
        }
        if let Some(context) = options.context_lines {
            args.push(String::from_str("-C"));
            args.push(decimal_string(context));
        }
        let ghost head = texts(args@);
        assert(head =~= seq!["--no-config"@] + switch_arg("-F"@, options.fixed_strings)
            + switch_arg("-i"@, !options.case_sensitive) + switch_arg("-n"@, options.line_numbers)
            + number_args("-C"@, options.context_lines));
        let n = options.file_types.len();
        let mut i: usize = 0;
        while i < n
            invariant
                n == options.file_types@.len(),
                0 <= i <= n,
                texts(args@) == head + type_args(texts(options.file_types@.subrange(0, i as int))),
            decreases n - i,
        {
            let ghost before = args@;
            args.push(String::from_str("-t"));
            args.push(options.file_types[i].clone());
            proof {
                let done = texts(options.file_types@.subrange(0, i as int));
                let next = texts(options.file_types@.subrange(0, i + 1));
                assert(next.drop_last() =~= done);
                assert(next.last() == options.file_types@[i as int]@);
                assert(texts(args@) =~= texts(before) + seq!["-t"@, next.last()]);
                assert(texts(args@) =~= head + type_args(next));
            }
            i = i + 1;
        }
        assert(options.file_types@.subrange(0, n as int) =~= options.file_types@);
        if let Some(depth) = options.max_depth {
            args.push(String::from_str("--max-depth"));
            args.push(decimal_string(depth));
        }
        args.push(options.pattern.clone());
        args.push(search_path.to_owned());
        assert(texts(args@) =~= command_args(*options, search_path@));
        args
    }

    /// Interprets a finished engine run: its exit status (`None` when it was stopped by a
    /// signal), its standard output and error, and how long it took.
    pub fn finish_search(
        &self,
        code: Option<i32>,
        stdout: &Vec<u8>,
        stderr: &Vec<u8>,
        elapsed_ms: u64,
    ) -> (r: Result<SearchResult, AppError>)
        ensures
            !exit_success(code) ==> engine_failure(r, stderr@),
            exit_success(code) ==> {
                &&& r is Ok <==> valid_utf8(stdout@)
                &&& r is Ok ==> reports(r->Ok_0, stdout@, elapsed_ms)
                &&& r is Err ==> undecodable_output(r)
            },
            code == Some(1i32) && stdout@.len() == 0 ==> r is Ok && r->Ok_0.matches@.len() == 0
                && r->Ok_0.stats.matched_lines == 0,
    {
        proof {
            if stdout@.len() == 0 {
                assert(valid_utf8(stdout@));
                assert(decoded_lines(stdout@) =~= seq![]);
            }
        }
        if !exit_succeeded(code) {
            let text = lossy_text(stderr.as_slice());
            return Err(AppError::RipgrepError(String::from_str("Ripgrep failed: ").concat(text.as_str())));
        }
        parse_output(stdout, elapsed_ms)
    }
}

/// Where the file-type flags start in the engine's argument list: after `--no-config`, the
/// switches and the context flag.
pub open spec fn type_args_start(o: SearchOptions) -> int {
    (1 + switch_arg("-F"@, o.fixed_strings).len() + switch_arg("-i"@, !o.case_sensitive).len()
        + switch_arg("-n"@, o.line_numbers).len() + number_args("-C"@, o.context_lines).len()) as int
}

/// The `i`-th file-type filter of an argument list whose filters start at `k`: the flag `-t`,
/// then `t`.
pub open spec fn filter_pair(a: Seq<Seq<char>>, k: int, i: int, t: Seq<char>) -> bool {
    a[k + 2 * i] == "-t"@ && a[k + 2 * i + 1] == t
}

proof fn lemma_type_args(types: Seq<Seq<char>>)
    ensures
        type_args(types).len() == 2 * types.len(),
        forall|i: int| 0 <= i < types.len() ==> #[trigger] filter_pair(type_args(types), 0, i, types[i]),
    decreases types.len(),
{
    if types.len() > 0 {
        lemma_type_args(types.drop_last());
        let t = type_args(types);
        let n = types.len() - 1;
        assert forall|i: int| 0 <= i < types.len() implies #[trigger] filter_pair(t, 0, i, types[i]) by {
            let d = type_args(types.drop_last());
            assert(t =~= d + seq!["-t"@, types.last()]);
            if i < n {
                assert(types.drop_last()[i] == types[i]);
                assert(filter_pair(d, 0, i, types.drop_last()[i]));
                assert(t[2 * i] == d[2 * i]);
                assert(t[2 * i + 1] == d[2 * i + 1]);
            } else {
                assert(t[2 * i] == "-t"@);
                assert(t[2 * i + 1] == types.last());
            }
        }
    }
}

/// For every request, the argument list ends with the pattern and then the target path, and
/// the file-type filters stand together: one `-t` flag before each entry of `file_types`, in
/// the order given, and no other argument in that stretch.
pub proof fn lemma_command_layout(o: SearchOptions, search_path: Seq<char>)
    ensures
        ({
            let a = command_args(o, search_path);
            let k = type_args_start(o);
            let n = o.file_types@.len() as int;
            &&& a.len() == k + 2 * n + number_args("--max-depth"@, o.max_depth).len() + 2
            &&& a[a.len() - 2] == o.pattern@
            &&& a[a.len() - 1] == search_path
            &&& forall|i: int| 0 <= i < n ==> #[trigger] filter_pair(a, k, i, o.file_types@[i]@)
        }),
{
    let types = texts(o.file_types@);
    lemma_type_args(types);
    let a = command_args(o, search_path);
    let k = type_args_start(o);
    let head = seq!["--no-config"@] + switch_arg("-F"@, o.fixed_strings) + switch_arg(
        "-i"@,
        !o.case_sensitive,
    ) + switch_arg("-n"@, o.line_numbers) + number_args("-C"@, o.context_lines);
    assert(head.len() == k);
    let t = type_args(types);
    let ht = head + t;
    let tail = number_args("--max-depth"@, o.max_depth) + seq![o.pattern@, search_path];
    assert(a =~= ht + tail);
    assert(a.len() == ht.len() + tail.len());
    assert(a[a.len() - 2] == tail[tail.len() - 2]);
    assert(a[a.len() - 1] == tail[tail.len() - 1]);
    assert forall|i: int| 0 <= i < o.file_types@.len() implies #[trigger] filter_pair(
        a,
        k,
        i,
        o.file_types@[i]@,
    ) by {
        assert(filter_pair(t, 0, i, types[i]));
        assert(types[i] == o.file_types@[i]@);
        assert(a[k + 2 * i] == ht[k + 2 * i]);
        assert(a[k + 2 * i + 1] == ht[k + 2 * i + 1]);
    }
}

/// One of the flags that the engine's argument list may hold.
pub open spec fn is_flag(s: Seq<char>) -> bool {
    s == "--no-config"@ || s == "-F"@ || s == "-i"@ || s == "-n"@ || s == "-C"@ || s == "-t"@ || s
        == "--max-depth"@
}

/// A value that stands beside a flag in the argument list: a number or a file type.
pub open spec fn is_flag_value(o: SearchOptions, s: Seq<char>) -> bool {
    (o.context_lines is Some && s == decimal(o.context_lines->Some_0 as nat)) || (o.max_depth is Some
        && s == decimal(o.max_depth->Some_0 as nat)) || exists|i: int|
        0 <= i < o.file_types@.len() && s == #[trigger] o.file_types@[i]@
}

/// The pattern stands in the argument list exactly once, at its own position, whenever it
/// differs from every flag, flag value and the target path (where it equals one of them, it
/// also appears there).
pub proof fn lemma_pattern_once(o: SearchOptions, search_path: Seq<char>)
    requires
        !is_flag(o.pattern@),
        !is_flag_value(o, o.pattern@),
        o.pattern@ != search_path,
    ensures
        ({
            let a = command_args(o, search_path);
            forall|j: int| 0 <= j < a.len() ==> (#[trigger] a[j] == o.pattern@ <==> j == a.len() - 2)
        }),
{
    lemma_command_layout(o, search_path);
    let types = texts(o.file_types@);
    lemma_type_args(types);
    let a = command_args(o, search_path);
    let k = type_args_start(o);
    let n = o.file_types@.len() as int;
    let head = seq!["--no-config"@] + switch_arg("-F"@, o.fixed_strings) + switch_arg(
        "-i"@,
        !o.case_sensitive,
    ) + switch_arg("-n"@, o.line_numbers) + number_args("-C"@, o.context_lines);
    let t = type_args(types);
    let depth = number_args("--max-depth"@, o.max_depth);
    let tail = depth + seq![o.pattern@, search_path];
    assert(a =~= head + t + tail);
    assert forall|j: int| 0 <= j < a.len() implies (#[trigger] a[j] == o.pattern@ <==> j == a.len()
        - 2) by {
        if j < k {
            assert(a[j] == head[j]);
            assert(is_flag(head[j]) || is_flag_value(o, head[j]));
        } else if j < k + 2 * n {
            let i = (j - k) / 2;
            assert(filter_pair(a, k, i, o.file_types@[i]@));
            if a[j] == o.pattern@ {
                if j == k + 2 * i {
                    assert(is_flag(a[j]));
                } else {
                    assert(j == k + 2 * i + 1);
                    assert(is_flag_value(o, a[j]));
                }
            }
        } else if j < k + 2 * n + depth.len() {
            assert(a[j] == depth[j - k - 2 * n]);
            assert(is_flag(depth[j - k - 2 * n]) || is_flag_value(o, depth[j - k - 2 * n]));
        } else {
            assert(a[j] == tail[j - k - 2 * n]);
        }
    }
}

} // verus!
