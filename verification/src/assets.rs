//! Hashed asset names for long-lived caching.
//!
//! Release builds write the content hashes of the bundle and stylesheet to
//! a hash file next to the server binary. The file's presence is the single
//! signal that hashing is on: with it the stylesheet is
//! `<output-name>.<hash>.css`, without it `<output-name>.css`. Either way the
//! chosen stylesheet must exist in the site folder, so a hash file and a site
//! folder from different builds, or a hashed site without its hash file,
//! fail the boot instead of serving a page whose stylesheet is a 404.
//!
//! The application reads the file and looks at the disk; the decisions are
//! made here.

use vstd::prelude::*;

use crate::environment::Environment;
use crate::text::{
    chars_of, find_char, find_char_in, is_whitespace, lemma_find_char, push_str, trim, trim_bounds,
    trim_end, trim_start,
};

verus! {

broadcast use vstd::string::group_string_axioms;

/// The lines of `s`, split at each `\n` (`str::lines`; a line's trailing
/// `\r` is left in place, which the whitespace trimming below removes).
pub open spec fn split_lines(s: Seq<char>) -> Seq<Seq<char>>
    decreases s.len(),
{
    if s.len() == 0 {
        Seq::empty()
    } else {
        let i: int = find_char(s, '\n');
        if i < s.len() {
            proof {
                lemma_find_char(s, '\n');
            }
            seq![s.take(i)] + split_lines(s.skip(i + 1))
        } else {
            seq![s]
        }
    }
}

/// The hash a hash-file line names for the stylesheet: the line, trimmed,
/// split at its first `:`, with a key of `css` once trimmed.
pub open spec fn css_entry(line: Seq<char>) -> Option<Seq<char>> {
    let t = trim(line);
    let k: int = find_char(t, ':');
    if k < t.len() && trim(t.take(k)) == "css"@ {
        Some(trim(t.skip(k + 1)))
    } else {
        None
    }
}

/// The hash on the first `css:` line among `lines`.
pub open spec fn css_hash_of_lines(lines: Seq<Seq<char>>) -> Option<Seq<char>>
    decreases lines.len(),
{
    if lines.len() == 0 {
        None
    } else {
        match css_entry(lines[0]) {
            Some(hash) => Some(hash),
            None => css_hash_of_lines(lines.drop_first()),
        }
    }
}

/// The hash on the `css:` line of a cargo-leptos hash file.
pub open spec fn spec_css_hash(contents: Seq<char>) -> Option<Seq<char>> {
    css_hash_of_lines(split_lines(contents))
}

/// Whether `v[a..b]` reads `css`.
fn is_css_key(v: &Vec<char>, a: usize, b: usize) -> (r: bool)
    requires
        a <= b <= v.len(),
    ensures
        r == (v@.subrange(a as int, b as int) == "css"@),
{
    proof {
        reveal_strlit("css");
    }
    let r = b - a == 3 && v[a] == 'c' && v[a + 1] == 's' && v[a + 2] == 's';
    proof {
        let sub = v@.subrange(a as int, b as int);
        if r {
            assert(sub =~= "css"@);
        } else if b - a == 3 {
            assert(sub[0] == v@[a as int] && sub[1] == v@[a + 1] && sub[2] == v@[a + 2]);
            assert("css"@.len() == 3);
            assert("css"@[0] == 'c' && "css"@[1] == 's' && "css"@[2] == 's');
            assert(sub != "css"@);
        } else {
            assert("css"@.len() == 3);
            assert(sub.len() != 3);
            assert(sub != "css"@);
        }
    }
    r
}

/// The css hash of the line `v[a..b]`, as bounds within `v`.
fn css_entry_bounds(v: &Vec<char>, a: usize, b: usize) -> (r: Option<(usize, usize)>)
    requires
        a <= b <= v.len(),
    ensures
        match r {
            Some((x, y)) => x <= y <= v.len() && css_entry(v@.subrange(a as int, b as int)) == Some(
                v@.subrange(x as int, y as int),
            ),
            None => css_entry(v@.subrange(a as int, b as int)) is None,
        },
{
    let (ta, tb): (usize, usize) = trim_bounds(v, a, b);
    let ghost t = v@.subrange(ta as int, tb as int);
    let k: usize = find_char_in(v, ta, tb, ':');
    if k == tb {
        return None;
    }
    let (ka, kb): (usize, usize) = trim_bounds(v, ta, k);
    proof {
        assert(t.take(k - ta) =~= v@.subrange(ta as int, k as int));
    }
    if !is_css_key(v, ka, kb) {
        return None;
    }
    let (ha, hb): (usize, usize) = trim_bounds(v, k + 1, tb);
    proof {
        assert(t.skip(k - ta + 1) =~= v@.subrange(k + 1, tb as int));
    }
    Some((ha, hb))
}

/// One step of `split_lines` over the text from `a` on.
proof fn lemma_split_step(s: Seq<char>, a: int, e: int)
    requires
        0 <= a < s.len(),
        e - a == find_char(s.subrange(a, s.len() as int), '\n'),
    ensures
        e < s.len() ==> split_lines(s.skip(a)) == seq![s.subrange(a, e)] + split_lines(
            s.skip(e + 1),
        ),
        e >= s.len() ==> split_lines(s.skip(a)) == seq![s.subrange(a, s.len() as int)],
{
    let t = s.skip(a);
    assert(t =~= s.subrange(a, s.len() as int));
    lemma_find_char(t, '\n');
    if e < s.len() {
        assert(t.take(e - a) =~= s.subrange(a, e));
        assert(t.skip(e - a + 1) =~= s.skip(e + 1));
    }
}

/// The hash on the `css:` line of a cargo-leptos hash file.
pub fn css_hash(contents: &str) -> (r: Option<&str>)
    ensures
        match r {
            Some(hash) => spec_css_hash(contents@) == Some(hash@),
            None => spec_css_hash(contents@) is None,
        },
{
    let v = chars_of(contents);
    let n: usize = v.len();
    let mut a: usize = 0;
    proof {
        assert(v@.skip(0) =~= v@);
    }
    while a < n
        invariant
            0 <= a <= n,
            n == v.len(),
            v@ == contents@,
            spec_css_hash(contents@) == css_hash_of_lines(split_lines(v@.skip(a as int))),
        decreases n - a,
    {
        let e: usize = find_char_in(&v, a, n, '\n');
        proof {
            lemma_split_step(v@, a as int, e as int);
            assert(v@.subrange(a as int, n as int) =~= v@.skip(a as int));
        }
        match css_entry_bounds(&v, a, e) {
            Some((x, y)) => {
                proof {
                    reveal_with_fuel(css_hash_of_lines, 2);
                }
                return Some(contents.substring_char(x, y));
            },
            None => {},
        }
        if e == n {
            proof {
                reveal_with_fuel(css_hash_of_lines, 2);
            }
            return None;
        }
        proof {
            let rest = split_lines(v@.skip(e + 1));
            assert((seq![v@.subrange(a as int, e as int)] + rest).drop_first() =~= rest);
        }
        a = e + 1;
    }
    proof {
        assert(v@.skip(a as int).len() == 0);
    }
    None
}


/// What reading the hash file next to the binary gave.
#[derive(Clone, Debug)]
pub enum HashFile {
    /// The file's contents.
    Contents(String),
    /// There is no such file: a build without hashed names.
    Missing,
    /// The file exists but could not be read; the text of the error.
    Unreadable(String),
}

/// The stylesheet file the pages link, and whether its name is hashed.
#[derive(Clone, Debug)]
pub struct StylesheetChoice {
    pub file: String,
    pub hashed: bool,
}

/// Resolved, request-independent asset paths.
#[derive(Clone, Debug)]
pub struct Assets {
    /// Absolute URL path of the stylesheet, hashed or plain.
    pub stylesheet: String,
}

/// The stylesheet file named by the hash file, or the plain name without
/// one; the error text otherwise.
pub open spec fn spec_choose_stylesheet(
    output_name: Seq<char>,
    hash_file: HashFile,
    hash_path: Seq<char>,
) -> Result<(Seq<char>, bool), Seq<char>> {
    match hash_file {
        HashFile::Contents(contents) => match spec_css_hash(contents@) {
            Some(hash) => Ok((output_name + "."@ + hash + ".css"@, true)),
            None => Err(hash_path + ": no `css:` line"@),
        },
        HashFile::Missing => Ok((output_name + ".css"@, false)),
        HashFile::Unreadable(e) => Err("reading "@ + hash_path + ": "@ + e@),
    }
}

/// Picks the stylesheet from the hash file (`hash_path` is where it was
/// looked for, for the messages). With the file the name is hashed and
/// `hash_files` must be switched on for the bundle as well.
///
/// # Errors
/// The hash file is unreadable or has no `css:` line.
pub fn choose_stylesheet(output_name: &str, hash_file: &HashFile, hash_path: &str) -> (r: Result<
    StylesheetChoice,
    String,
>)
    ensures
        match (r, spec_choose_stylesheet(output_name@, *hash_file, hash_path@)) {
            (Ok(c), Ok((file, hashed))) => c.file@ == file && c.hashed == hashed,
            (Err(m), Err(e)) => m@ == e,
            _ => false,
        },
        *hash_file is Missing ==> (r matches Ok(c) && c.file@ == output_name@ + ".css"@
            && !c.hashed),
        r matches Ok(c) && c.hashed ==> *hash_file is Contents,
{
    proof {
        reveal_strlit(".");
        reveal_strlit(".css");
        reveal_strlit(": no `css:` line");
        reveal_strlit("reading ");
        reveal_strlit(": ");
    }
    match hash_file {
        HashFile::Contents(contents) => match css_hash(contents.as_str()) {
            Some(hash) => {
                let mut file = String::from_str(output_name);
                push_str(&mut file, ".");
                push_str(&mut file, hash);
                push_str(&mut file, ".css");
                Ok(StylesheetChoice { file, hashed: true })
            },
            None => {
                let mut message = String::from_str(hash_path);
                push_str(&mut message, ": no `css:` line");
                Err(message)
            },
        },
        HashFile::Missing => {
            let mut file = String::from_str(output_name);
            push_str(&mut file, ".css");
            Ok(StylesheetChoice { file, hashed: false })
        },
        HashFile::Unreadable(e) => {
            let mut message = String::from_str("reading ");
            push_str(&mut message, hash_path);
            push_str(&mut message, ": ");
            push_str(&mut message, e.as_str());
            Err(message)
        },
    }
}

pub open spec fn stale_hash_text(hash_path: Seq<char>, file: Seq<char>, pkg_dir: Seq<char>) -> Seq<
    char,
> {
    hash_path + " names "@ + file + " but "@ + pkg_dir
        + " does not contain it: the hash file is stale, rebuild with LEPTOS_HASH_FILES=true or delete it"@
}

pub open spec fn missing_hash_text(hash_path: Seq<char>, file: Seq<char>, pkg_dir: Seq<char>) -> Seq<
    char,
> {
    pkg_dir + " has no "@ + file + " and no "@ + hash_path
        + " exists next to the binary: a hashed build must be deployed together with its hash file (see README.DEPLOY.md); locally, `cargo leptos build` restores plain names"@
}

/// The stylesheet path the pages link, or the reason the site folder does
/// not fit the hash file.
pub open spec fn spec_resolve_assets(
    pkg: Seq<char>,
    file: Seq<char>,
    hashed: bool,
    env: Environment,
    pkg_dir_exists: bool,
    file_exists: bool,
    hash_path: Seq<char>,
    pkg_dir: Seq<char>,
) -> Result<Seq<char>, Seq<char>> {
    let check_disk = !(env is Test);
    if hashed && check_disk && !file_exists {
        Err(stale_hash_text(hash_path, file, pkg_dir))
    } else if !hashed && check_disk && pkg_dir_exists && !file_exists {
        Err(missing_hash_text(hash_path, file, pkg_dir))
    } else {
        Ok("/"@ + pkg + "/"@ + file)
    }
}

/// Checks the chosen stylesheet against the site folder and builds the
/// paths. `pkg_dir_exists` and `file_exists` say whether the folder
/// `pkg_dir` and the chosen file in it exist. A missing site folder is not
/// an error here; the static file middleware decides whether that is
/// allowed. The test environment skips the on-disk checks: the harness
/// serves no assets.
///
/// # Errors
/// The stylesheet is not in the site folder even though that folder exists:
/// a stale hash file, or a hashed build deployed without its hash file.
pub fn resolve_assets(
    pkg: &str,
    choice: &StylesheetChoice,
    env: &Environment,
    pkg_dir_exists: bool,
    file_exists: bool,
    hash_path: &str,
    pkg_dir: &str,
) -> (r: Result<Assets, String>)
    ensures
        match (
            r,
            spec_resolve_assets(
                pkg@,
                choice.file@,
                choice.hashed,
                *env,
                pkg_dir_exists,
                file_exists,
                hash_path@,
                pkg_dir@,
            ),
        ) {
            (Ok(a), Ok(path)) => a.stylesheet@ == path,
            (Err(m), Err(e)) => m@ == e,
            _ => false,
        },
        file_exists || *env is Test || (!choice.hashed && !pkg_dir_exists) ==> (r matches Ok(a)
            && a.stylesheet@ == "/"@ + pkg@ + "/"@ + choice.file@),
        r is Err ==> !file_exists && !(*env is Test) && (choice.hashed || pkg_dir_exists),
{
    proof {
        reveal_strlit(" names ");
        reveal_strlit(" but ");
        reveal_strlit(
            " does not contain it: the hash file is stale, rebuild with LEPTOS_HASH_FILES=true or delete it",
        );
        reveal_strlit(" has no ");
        reveal_strlit(" and no ");
        reveal_strlit(
            " exists next to the binary: a hashed build must be deployed together with its hash file (see README.DEPLOY.md); locally, `cargo leptos build` restores plain names",
        );
        reveal_strlit("/");
    }
    let check_disk = match env {
        Environment::Test => false,
        _ => true,
    };
    let file = choice.file.as_str();
    if choice.hashed && check_disk && !file_exists {
        let mut message = String::from_str(hash_path);
        push_str(&mut message, " names ");
        push_str(&mut message, file);
        push_str(&mut message, " but ");
        push_str(&mut message, pkg_dir);
        push_str(
            &mut message,
            " does not contain it: the hash file is stale, rebuild with LEPTOS_HASH_FILES=true or delete it",
        );
        return Err(message);
    }
    if !choice.hashed && check_disk && pkg_dir_exists && !file_exists {
        let mut message = String::from_str(pkg_dir);
        push_str(&mut message, " has no ");
        push_str(&mut message, file);
        push_str(&mut message, " and no ");
        push_str(&mut message, hash_path);
        push_str(
            &mut message,
            " exists next to the binary: a hashed build must be deployed together with its hash file (see README.DEPLOY.md); locally, `cargo leptos build` restores plain names",
        );
        return Err(message);
    }
    let mut stylesheet = String::from_str("/");
    push_str(&mut stylesheet, pkg);
    push_str(&mut stylesheet, "/");
    push_str(&mut stylesheet, file);
    Ok(Assets { stylesheet })
}

/// The boot is refused only when the chosen stylesheet is missing from the
/// site folder: whenever the file is there (hashed or plain, in any
/// environment), and always in the test environment, the pages link
/// `/<pkg>/<file>`. A missing hashed file is refused wherever the disk is
/// checked; a missing plain file only when the site folder itself exists.
pub proof fn lemma_stylesheet_refused_only_when_missing(
    pkg: Seq<char>,
    file: Seq<char>,
    hashed: bool,
    env: Environment,
    pkg_dir_exists: bool,
    file_exists: bool,
    hash_path: Seq<char>,
    pkg_dir: Seq<char>,
)
    ensures
        file_exists || env is Test || (!hashed && !pkg_dir_exists) ==> spec_resolve_assets(
            pkg,
            file,
            hashed,
            env,
            pkg_dir_exists,
            file_exists,
            hash_path,
            pkg_dir,
        ) == Ok::<Seq<char>, Seq<char>>("/"@ + pkg + "/"@ + file),
        !file_exists && !(env is Test) && (hashed || pkg_dir_exists) ==> spec_resolve_assets(
            pkg,
            file,
            hashed,
            env,
            pkg_dir_exists,
            file_exists,
            hash_path,
            pkg_dir,
        ) is Err,
{
}

/// `find_char` stops at the first `c`, or at the end when there is none.
proof fn lemma_find_char_at(s: Seq<char>, c: char, j: int)
    requires
        0 <= j <= s.len(),
        forall|i: int| 0 <= i < j ==> s[i] != c,
        j < s.len() ==> s[j] == c,
    ensures
        find_char(s, c) == j,
    decreases j,
{
    if j > 0 {
        assert forall|i: int| 0 <= i < j - 1 implies s.drop_first()[i] != c by {
            assert(s.drop_first()[i] == s[i + 1]);
        }
        lemma_find_char_at(s.drop_first(), c, j - 1);
    }
}

/// A line and a newline in front of the rest split off as the first line.
proof fn lemma_split_first_line(line: Seq<char>, rest: Seq<char>)
    requires
        forall|i: int| 0 <= i < line.len() ==> line[i] != '\n',
    ensures
        split_lines(line + seq!['\n'] + rest) == seq![line] + split_lines(rest),
{
    let s = line + seq!['\n'] + rest;
    lemma_find_char_at(s, '\n', line.len() as int);
    assert(s.take(line.len() as int) =~= line);
    assert(s.skip(line.len() as int + 1) =~= rest);
}

/// Trimming keeps a stretch of the text: a suffix for the start, a prefix
/// for the end.
proof fn lemma_trim_is_a_part(s: Seq<char>)
    ensures
        trim_start(s) == s.skip(s.len() - trim_start(s).len()),
        trim_start(s).len() <= s.len(),
        trim_end(s) == s.take(trim_end(s).len() as int),
        trim_end(s).len() <= s.len(),
    decreases s.len(),
{
    if s.len() > 0 {
        lemma_trim_is_a_part(s.drop_first());
        lemma_trim_is_a_part(s.drop_last());
        if is_whitespace(s[0]) {
            assert(s.drop_first().skip(s.drop_first().len() - trim_start(s.drop_first()).len())
                =~= s.skip(s.len() - trim_start(s).len()));
        } else {
            assert(s.skip(0) =~= s);
        }
        if is_whitespace(s.last()) {
            assert(s.drop_last().take(trim_end(s.drop_last()).len() as int) =~= s.take(
                trim_end(s).len() as int,
            ));
        } else {
            assert(s.take(s.len() as int) =~= s);
        }
    } else {
        assert(s.skip(0) =~= s);
        assert(s.take(0) =~= s);
    }
}

/// The first line of a hash file that is a `css:` line decides: a hash
/// file whose first line is one gives its hash whatever follows, and a
/// first line that is not one leaves the answer to the lines after it.
pub proof fn lemma_first_css_line_wins(line: Seq<char>, rest: Seq<char>)
    requires
        forall|i: int| 0 <= i < line.len() ==> line[i] != '\n',
    ensures
        css_entry(line) matches Some(h) ==> spec_css_hash(line + "\n"@ + rest) == Some(h),
        css_entry(line) is None ==> spec_css_hash(line + "\n"@ + rest) == spec_css_hash(rest),
{
    reveal_strlit("\n");
    assert("\n"@ =~= seq!['\n']);
    lemma_split_first_line(line, rest);
    assert((seq![line] + split_lines(rest)).drop_first() =~= split_lines(rest));
}

/// A line without a `:` is never the `css:` line.
pub proof fn lemma_line_without_colon_names_no_hash(line: Seq<char>)
    requires
        forall|i: int| 0 <= i < line.len() ==> line[i] != ':',
    ensures
        css_entry(line) is None,
{
    let a = trim_start(line);
    let t = trim(line);
    lemma_trim_is_a_part(line);
    lemma_trim_is_a_part(a);
    assert forall|i: int| 0 <= i < t.len() implies t[i] != ':' by {
        assert(t[i] == a[i]);
        assert(a[i] == line[line.len() - a.len() + i]);
    }
    lemma_find_char(t, ':');
    lemma_find_char_at(t, ':', t.len() as int);
}

/// `css: <hash>` names exactly `<hash>`, for a hash without whitespace, on
/// the first line of the file or as its only line.
pub proof fn lemma_css_line_names_its_hash(h: Seq<char>, rest: Seq<char>)
    requires
        h.len() > 0,
        forall|i: int| 0 <= i < h.len() ==> !is_whitespace(#[trigger] h[i]),
    ensures
        css_entry("css: "@ + h) == Some(h),
        spec_css_hash("css: "@ + h + "\n"@ + rest) == Some(h),
        spec_css_hash("css: "@ + h) == Some(h),
{
    reveal_strlit("css: ");
    reveal_strlit("css");
    let line = "css: "@ + h;
    assert(line[0] == 'c');
    assert(trim_start(line) == line);
    assert(line.last() == h.last());
    assert(trim_end(line) == line);
    assert(trim(line) == line);
    lemma_find_char_at(line, ':', 3);
    assert(line.take(3) =~= "css"@);
    assert(trim_start(line.take(3)) == line.take(3));
    assert(trim_end(line.take(3)) == line.take(3));
    let tail = line.skip(4);
    assert(tail =~= seq![' '] + h);
    assert(tail.drop_first() =~= h);
    assert(trim_start(h) == h);
    assert(trim_start(tail) == h);
    assert(trim_end(h) == h);
    assert(css_entry(line) == Some(h));
    assert forall|i: int| 0 <= i < line.len() implies line[i] != '\n' by {
        if i >= 5 {
            assert(line[i] == h[i - 5]);
        }
    }
    lemma_first_css_line_wins(line, rest);
    lemma_find_char_at(line, '\n', line.len() as int);
}

/// A hash file that names a css hash always gives the hashed name, a
/// missing one the plain name: the file is the single signal.
pub proof fn lemma_hash_file_is_the_single_signal(
    output_name: Seq<char>,
    hash_file: HashFile,
    hash_path: Seq<char>,
)
    ensures
        hash_file is Missing ==> spec_choose_stylesheet(output_name, hash_file, hash_path) == Ok::<
            (Seq<char>, bool),
            Seq<char>,
        >((output_name + ".css"@, false)),
        hash_file matches HashFile::Contents(c) ==> (spec_css_hash(c@) matches Some(h)
            ==> spec_choose_stylesheet(output_name, hash_file, hash_path) == Ok::<
            (Seq<char>, bool),
            Seq<char>,
        >((output_name + "."@ + h + ".css"@, true))),
        hash_file matches HashFile::Contents(c) ==> (spec_css_hash(c@) is None
            ==> spec_choose_stylesheet(output_name, hash_file, hash_path) is Err),
        hash_file is Unreadable ==> spec_choose_stylesheet(output_name, hash_file, hash_path) is Err,
{
}

} // verus!
