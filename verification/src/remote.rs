//! Which GitHub repository a folder belongs to.

use crate::chars::{
    after, before, contains_text, cut_after, cut_before, cut_prefix, cut_suffix, find, find_text,
    first_occurs_at, lemma_before, lemma_before_ends, lemma_before_lead, lemma_before_whole,
    lemma_find, lemma_find_is, lemma_trim, lemma_trim_around, lemma_trim_end, lemma_trim_end_lead,
    lemma_trimmed_already, occurs_at, to_chars, to_text, trim, trim_end, trimmed, trimmed_end,
    white_space, CharClass,
};
use crate::model::texts;
use vstd::prelude::*;
use vstd::utf8::{decode_utf8, valid_utf8};

verus! {

/// The repository `owner/name` that the path of a GitHub address names. The path ends before the
/// first `?`, and then before the first `#`; slashes around it and `.git` at its end do not count;
/// and of its parts only the first two do.
pub open spec fn repo_of_path(path: Seq<char>) -> Option<Seq<char>> {
    let bare = trim(before(before(path, '?'), '#'), CharClass::Just('/'));
    let normalized = if ".git"@.is_suffix_of(bare) {
        bare.take(bare.len() - ".git"@.len())
    } else {
        bare
    };
    let owner = trim(before(normalized, '/'), CharClass::WhiteSpace);
    match after(normalized, '/') {
        None => None,
        Some(rest) => {
            let repo = trim(before(rest, '/'), CharClass::WhiteSpace);
            if owner.len() == 0 || repo.len() == 0 {
                None
            } else {
                Some(owner + seq!['/'] + repo)
            }
        },
    }
}

/// Gives the repository that the path of a GitHub address names.
pub fn github_repo_from_path(path: &str) -> (r: Option<String>)
    ensures
        r is Some == repo_of_path(path@) is Some,
        r matches Some(repo) ==> repo_of_path(path@) == Some(repo@),
{
    let chars = to_chars(path);
    repo_from_path(chars.as_slice())
}

/// Gives the repository that the path of a GitHub address names, from the path's characters.
fn repo_from_path(path: &[char]) -> (r: Option<String>)
    ensures
        r is Some == repo_of_path(path@) is Some,
        r matches Some(repo) ==> repo_of_path(path@) == Some(repo@),
{
    let without_query = cut_before(path, '?');
    let without_fragment = cut_before(without_query, '#');
    let bare = trimmed(without_fragment, CharClass::Just('/'));
    let suffix = to_chars(".git");
    let normalized = match cut_suffix(bare, suffix.as_slice()) {
        Some(rest) => rest,
        None => bare,
    };
    let owner = trimmed(cut_before(normalized, '/'), CharClass::WhiteSpace);
    let repo = match cut_after(normalized, '/') {
        Some(rest) => trimmed(cut_before(rest, '/'), CharClass::WhiteSpace),
        None => return None,
    };
    if owner.len() == 0 || repo.len() == 0 {
        return None;
    }
    let mut name = to_text(owner);
    name.push('/');
    name.append(to_text(repo).as_str());
    assert(name@ =~= owner@ + seq!['/'] + repo@);
    Some(name)
}

/// The repository that the address of a remote names: what stands behind `git@github.com:` at its
/// start is a path on GitHub, and else what stands behind the first `github.com/`. White space
/// around the address does not count.
pub open spec fn repo_of_remote(remote: Seq<char>) -> Option<Seq<char>> {
    let address = trim(remote, CharClass::WhiteSpace);
    let ssh = "git@github.com:"@;
    let host = "github.com/"@;
    if ssh.is_prefix_of(address) {
        repo_of_path(address.skip(ssh.len() as int))
    } else if contains_text(address, host) {
        let at = choose|at: int| first_occurs_at(address, host, at);
        repo_of_path(address.skip(at + host.len()))
    } else {
        None
    }
}

/// Gives the repository that the address of a remote names.
pub fn github_repo_from_remote(remote: &str) -> (r: Option<String>)
    ensures
        r is Some == repo_of_remote(remote@) is Some,
        r matches Some(repo) ==> repo_of_remote(remote@) == Some(repo@),
{
    let chars = to_chars(remote);
    let address = trimmed(chars.as_slice(), CharClass::WhiteSpace);
    let ssh = to_chars("git@github.com:");
    let host = to_chars("github.com/");
    if address.len() == 0 {
        proof {
            reveal_strlit("git@github.com:");
            reveal_strlit("github.com/");
        }
        return None;
    }
    match cut_prefix(address, ssh.as_slice()) {
        Some(path) => repo_from_path(path),
        None => match find_text(address, host.as_slice()) {
            Some(at) => {
                let path = vstd::slice::slice_subrange(address, at + host.len(), address.len());
                proof {
                    let first = choose|first: int| first_occurs_at(address@, host@, first);
                    assert(first_occurs_at(address@, host@, at as int));
                    assert(first == at);
                    assert(path@ =~= address@.skip(at + host@.len()));
                }
                repo_from_path(path)
            },
            None => None,
        },
    }
}

/// The text that bytes stand for, with a replacement character where they are not UTF-8.
pub uninterp spec fn lossy_text(bytes: Seq<u8>) -> Seq<char>;

/// Reads bytes as text.
///
/// Calls `String::from_utf8_lossy`. The contract claims that the text is a function of the bytes,
/// and that it is the encoded text where they are valid UTF-8.
#[verifier::external_body]
fn read_lossy(bytes: &[u8]) -> (r: String)
    ensures
        r@ == lossy_text(bytes@),
        valid_utf8(bytes@) ==> r@ == decode_utf8(bytes@),
{
    String::from_utf8_lossy(bytes).into_owned()
}

/// Gives the output of a git command without the white space at its end, unless the command
/// failed.
pub fn git_output(success: bool, stdout: &[u8]) -> (r: Option<String>)
    ensures
        r is Some == success,
        r matches Some(text) ==> text@ == trim_end(lossy_text(stdout@), CharClass::WhiteSpace),
        r matches Some(text) ==> valid_utf8(stdout@) ==> text@ == trim_end(
            decode_utf8(stdout@),
            CharClass::WhiteSpace,
        ),
{
    if !success {
        return None;
    }
    let text = to_chars(read_lossy(stdout).as_str());
    Some(to_text(trimmed_end(text.as_slice(), CharClass::WhiteSpace)))
}

/// Makes the arguments with which git tells the top folder of a working tree.
pub fn git_toplevel_args() -> (r: Vec<String>)
    ensures
        texts(r@) == seq!["-c"@, "color.ui=never"@, "rev-parse"@, "--show-toplevel"@],
{
    vec![
        "-c".to_string(),
        "color.ui=never".to_string(),
        "rev-parse".to_string(),
        "--show-toplevel".to_string(),
    ]
}

/// Makes the arguments with which git tells the address of the remote `origin`.
pub fn git_remote_args() -> (r: Vec<String>)
    ensures
        texts(r@) == seq!["-c"@, "color.ui=never"@, "remote"@, "get-url"@, "origin"@],
{
    vec![
        "-c".to_string(),
        "color.ui=never".to_string(),
        "remote".to_string(),
        "get-url".to_string(),
        "origin".to_string(),
    ]
}

/// The folder in which git is asked for the remote.
pub enum RepoDir {
    /// The folder that the search started from.
    Here,
    /// The folder of the given path.
    At(String),
}

/// Gives the folder in which git is asked: the given one where it holds an entry `.git`, and else
/// the top folder that git named, if it named one.
pub fn git_command_dir_for_path(has_git_entry: bool, toplevel: Option<&str>) -> (r: Option<RepoDir>)
    ensures
        has_git_entry ==> r == Some(RepoDir::Here),
        !has_git_entry && toplevel is None ==> r is None,
        !has_git_entry ==> (toplevel matches Some(output) ==> {
            let path = trim(output@, CharClass::WhiteSpace);
            &&& r is None <==> path.len() == 0
            &&& path.len() > 0 ==> (r matches Some(RepoDir::At(dir)) && dir@ == path)
        }),
{
    if has_git_entry {
        return Some(RepoDir::Here);
    }
    match toplevel {
        Some(output) => {
            let chars = to_chars(output);
            let path = trimmed(chars.as_slice(), CharClass::WhiteSpace);
            if path.len() == 0 {
                None
            } else {
                Some(RepoDir::At(to_text(path)))
            }
        },
        None => None,
    }
}

/// What is known on the way from a folder to its repository.
pub enum RepoEvent {
    /// Whether the folder holds an entry `.git`.
    GitEntry(bool),
    /// What git says the top folder is.
    TopLevel(Option<String>),
    /// What git says the address of the remote is.
    Remote(Option<String>),
}

/// What is to be done next on the way from a folder to its repository.
pub enum RepoStep {
    /// Ask git for the top folder.
    AskTopLevel,
    /// Ask git in this folder for the remote.
    AskRemote(RepoDir),
    /// Nothing: this is the repository, if there is one.
    Done(Option<String>),
}

/// Gives the next step on the way from a folder to its repository.
pub fn repo_for_path(event: RepoEvent) -> (step: RepoStep)
    ensures
        match event {
            RepoEvent::GitEntry(true) => step == RepoStep::AskRemote(RepoDir::Here),
            RepoEvent::GitEntry(false) => step is AskTopLevel,
            RepoEvent::TopLevel(None) => step == RepoStep::Done(None),
            RepoEvent::TopLevel(Some(output)) => {
                let path = trim(output@, CharClass::WhiteSpace);
                if path.len() == 0 {
                    step == RepoStep::Done(None)
                } else {
                    step matches RepoStep::AskRemote(RepoDir::At(dir)) && dir@ == path
                }
            },
            RepoEvent::Remote(None) => step == RepoStep::Done(None),
            RepoEvent::Remote(Some(remote)) => match repo_of_remote(remote@) {
                Some(repo) => step matches RepoStep::Done(Some(found)) && found@ == repo,
                None => step == RepoStep::Done(None),
            },
        },
{
    match event {
        RepoEvent::GitEntry(has_git_entry) => match git_command_dir_for_path(has_git_entry, None) {
            Some(dir) => RepoStep::AskRemote(dir),
            None => RepoStep::AskTopLevel,
        },
        RepoEvent::TopLevel(output) => {
            let toplevel = match &output {
                Some(output) => Some(output.as_str()),
                None => None,
            };
            match git_command_dir_for_path(false, toplevel) {
                Some(dir) => RepoStep::AskRemote(dir),
                None => RepoStep::Done(None),
            }
        },
        RepoEvent::Remote(output) => match output {
            Some(remote) => RepoStep::Done(github_repo_from_remote(remote.as_str())),
            None => RepoStep::Done(None),
        },
    }
}

/// A query or a fragment at the end of a path does not matter.
pub proof fn law_query_and_fragment_do_not_count(path: Seq<char>, rest: Seq<char>)
    ensures
        repo_of_path(path + seq!['?'] + rest) == repo_of_path(path),
        repo_of_path(path + seq!['#'] + rest) == repo_of_path(path),
{
    lemma_before_ends(path, '?', rest);
    let long = path + seq!['#'] + rest;
    let q = find(path, '?');
    lemma_find(path, '?');
    lemma_find(long, '?');
    if q < path.len() {
        assert forall|j: int| 0 <= j < q implies long[j] != '?' by {
            assert(long[j] == path[j]);
        }
        lemma_find_is(long, '?', q);
        assert(before(long, '?') =~= before(path, '?'));
    } else {
        let cut = find(long, '?');
        assert(cut > path.len()) by {
            if cut <= path.len() {
                if cut < path.len() {
                    assert(path[cut] == '?');
                } else {
                    assert(long[cut] == '#');
                }
            }
        }
        let tail = rest.take(cut - path.len() - 1);
        assert(before(path, '?') =~= path);
        assert(before(long, '?') =~= path + seq!['#'] + tail);
        lemma_before_ends(path, '#', tail);
    }
}

/// A repository found in a path is an owner and a name with one slash between them: neither is
/// empty, neither holds a slash, a question mark or a hash, and neither has white space at its
/// ends.
pub proof fn law_repo_is_owner_and_name(path: Seq<char>)
    requires
        repo_of_path(path) is Some,
    ensures
        exists|owner: Seq<char>, name: Seq<char>|
            {
                &&& repo_of_path(path) == Some(#[trigger] (owner + seq!['/'] + name))
                &&& is_part(owner)
                &&& is_part(name)
            },
{
    let clean = before(before(path, '?'), '#');
    lemma_before(path, '?');
    lemma_before(before(path, '?'), '#');
    let bare = trim(clean, CharClass::Just('/'));
    lemma_trim(clean, CharClass::Just('/'));
    let normalized = if ".git"@.is_suffix_of(bare) {
        bare.take(bare.len() - ".git"@.len())
    } else {
        bare
    };
    assert forall|c: char| normalized.contains(c) implies bare.contains(c) by {
        let k = choose|k: int| 0 <= k < normalized.len() && normalized[k] == c;
        assert(bare[k] == c);
    }
    let rest = after(normalized, '/')->0;
    lemma_find(normalized, '/');
    assert forall|c: char| rest.contains(c) implies normalized.contains(c) by {
        let k = choose|k: int| 0 <= k < rest.len() && rest[k] == c;
        assert(normalized[find(normalized, '/') + 1 + k] == c);
    }
    lemma_before(normalized, '/');
    lemma_before(rest, '/');
    lemma_trim(before(normalized, '/'), CharClass::WhiteSpace);
    lemma_trim(before(rest, '/'), CharClass::WhiteSpace);
    let owner = trim(before(normalized, '/'), CharClass::WhiteSpace);
    let name = trim(before(rest, '/'), CharClass::WhiteSpace);
    assert(repo_of_path(path) == Some(owner + seq!['/'] + name));
    assert(is_part(owner));
    assert(is_part(name));
}

/// Whether a text is the owner or the name of a repository as `repo_of_path` finds it.
pub open spec fn is_part(s: Seq<char>) -> bool {
    &&& s.len() > 0
    &&& !s.contains('/')
    &&& !s.contains('?')
    &&& !s.contains('#')
    &&& !white_space(s[0])
    &&& !white_space(s.last())
}

/// White space around the address of a remote does not matter.
pub proof fn law_white_space_around_remote_does_not_count(
    lead: Seq<char>,
    remote: Seq<char>,
    tail: Seq<char>,
)
    requires
        forall|k: int| 0 <= k < lead.len() ==> white_space(#[trigger] lead[k]),
        forall|k: int| 0 <= k < tail.len() ==> white_space(#[trigger] tail[k]),
    ensures
        repo_of_remote(lead + remote + tail) == repo_of_remote(remote),
{
    lemma_trim_around(lead, remote, tail, CharClass::WhiteSpace);
}

/// Slashes around a path do not matter.
pub proof fn law_slashes_around_path_do_not_count(path: Seq<char>)
    ensures
        repo_of_path(seq!['/'] + path) == repo_of_path(path),
        repo_of_path(path + seq!['/']) == repo_of_path(path),
{
    let slash = seq!['/'];
    let none = Seq::<char>::empty();
    let class = CharClass::Just('/');
    let clean = before(before(path, '?'), '#');
    lemma_before_lead(slash, path, '?');
    lemma_before_lead(slash, before(path, '?'), '#');
    lemma_trim_around(slash, clean, none, class);
    assert(slash + clean + none =~= slash + clean);
    lemma_clean_of_longer(path, slash);
    if before(before(path + slash, '?'), '#') != clean {
        lemma_trim_around(none, clean, slash, class);
        assert(none + clean + slash =~= clean + slash);
    }
}

/// What is added behind a path without a query or a fragment is cut as the path itself would be;
/// what is added behind another one is cut off.
proof fn lemma_clean_of_longer(path: Seq<char>, more: Seq<char>)
    requires
        !more.contains('?'),
        !more.contains('#'),
    ensures
        ({
            let clean = before(before(path, '?'), '#');
            let longer = before(before(path + more, '?'), '#');
            longer == clean || longer == clean + more
        }),
{
    lemma_before_longer(path, more, '?');
    lemma_before_longer(before(path, '?'), more, '#');
}

/// What is added behind a text that holds a character does not stand before that character.
proof fn lemma_before_longer(s: Seq<char>, more: Seq<char>, c: char)
    requires
        !more.contains(c),
    ensures
        before(s + more, c) == before(s, c) || before(s + more, c) == before(s, c) + more,
{
    if s.contains(c) {
        lemma_find(s, c);
        let at = find(s, c);
        let tail = s.skip(at + 1) + more;
        assert(s + more =~= s.take(at) + seq![c] + tail);
        assert(s =~= s.take(at) + seq![c] + s.skip(at + 1));
        lemma_before_ends(s.take(at), c, tail);
        lemma_before_ends(s.take(at), c, s.skip(at + 1));
    } else {
        lemma_before_whole(s, c);
        lemma_before_lead(s, more, c);
        lemma_before_whole(more, c);
    }
}

/// Of an owner, a name and what follows behind another slash, owner and name are the first two
/// parts.
proof fn lemma_first_two_parts(owner: Seq<char>, name: Seq<char>, rest: Seq<char>)
    requires
        is_part(owner),
        is_part(name),
        rest.len() > 0 ==> rest[0] == '/',
    ensures
        ({
            let all = owner + seq!['/'] + name + rest;
            &&& trim(before(all, '/'), CharClass::WhiteSpace) == owner
            &&& after(all, '/') matches Some(behind) && trim(
                before(behind, '/'),
                CharClass::WhiteSpace,
            ) == name
        }),
{
    let all = owner + seq!['/'] + name + rest;
    let n = owner.len() as int;
    assert forall|j: int| 0 <= j < n implies all[j] != '/' by {
        assert(owner.contains(owner[j]));
        assert(all[j] == owner[j]);
    }
    lemma_find_is(all, '/', n);
    assert(before(all, '/') =~= owner);
    assert(all.skip(n + 1) =~= name + rest);
    lemma_before_lead(name, rest, '/');
    assert(name + before(rest, '/') =~= name);
    lemma_trimmed_already(owner, CharClass::WhiteSpace);
    lemma_trimmed_already(name, CharClass::WhiteSpace);
}

/// The path `owner/name` names the repository `owner/name`, with or without `.git` behind it, and
/// whatever follows behind another slash.
pub proof fn law_path_names_repo(owner: Seq<char>, name: Seq<char>, more: Seq<char>)
    requires
        is_part(owner),
        is_part(name),
        !".git"@.is_suffix_of(name),
    ensures
        repo_of_path(owner + seq!['/'] + name) == Some(owner + seq!['/'] + name),
        repo_of_path(owner + seq!['/'] + name + ".git"@) == Some(owner + seq!['/'] + name),
        repo_of_path(owner + seq!['/'] + name + seq!['/'] + more) == Some(
            owner + seq!['/'] + name,
        ),
{
    reveal_strlit(".git");
    let path = owner + seq!['/'] + name;
    let none = Seq::<char>::empty();
    lemma_owner_and_name(owner, name);
    lemma_before_whole(path, '?');
    lemma_before_whole(path, '#');
    lemma_trimmed_already(path, CharClass::Just('/'));
    lemma_first_two_parts(owner, name, none);
    assert(path + none =~= path);

    let long = path + ".git"@;
    lemma_before_lead(path, ".git"@, '?');
    lemma_before_lead(path, ".git"@, '#');
    lemma_before_whole(".git"@, '?');
    lemma_before_whole(".git"@, '#');
    assert(long[0] == owner[0]);
    lemma_trimmed_already(long, CharClass::Just('/'));
    assert(long.subrange(long.len() - 4, long.len() as int) =~= ".git"@);
    assert(long.take(long.len() - 4) =~= path);

    let tail = seq!['/'] + more;
    assert(path + seq!['/'] + more =~= path + tail);
    let cut = before(before(tail, '?'), '#');
    lemma_before_lead(path, tail, '?');
    lemma_before_lead(path, before(tail, '?'), '#');
    assert(before(before(path + tail, '?'), '#') == path + cut);
    lemma_before_lead(seq!['/'], more, '?');
    lemma_before_lead(seq!['/'], before(more, '?'), '#');
    assert(cut[0] == '/');
    let class = CharClass::Just('/');
    let end = trim_end(cut, class);
    assert((path + cut)[0] == owner[0]);
    lemma_trim_end_lead(path, cut, class);
    lemma_trim_end(cut, class);
    let bare = path + end;
    assert(trim(path + cut, class) == bare);
    if ".git"@.is_suffix_of(bare) {
        let m = bare.len() - 4;
        let suffix = bare.subrange(m, bare.len() as int);
        assert(suffix =~= ".git"@);
        if end.len() == 0 {
            assert(bare =~= path);
        } else if end.len() < 4 {
            assert(suffix[path.len() - m] == end[0]);
        }
        lemma_first_two_parts(owner, name, end.take(end.len() - 4));
        assert(bare.take(m) =~= path + end.take(end.len() - 4));
    } else {
        lemma_first_two_parts(owner, name, end);
    }
}

/// An owner, a slash and a name hold no query and no fragment, have no slash at their ends, and end
/// in `.git` only where the name does.
proof fn lemma_owner_and_name(owner: Seq<char>, name: Seq<char>)
    requires
        is_part(owner),
        is_part(name),
    ensures
        ({
            let path = owner + seq!['/'] + name;
            &&& !path.contains('?')
            &&& !path.contains('#')
            &&& path[0] == owner[0] && owner[0] != '/'
            &&& path.last() == name.last() && name.last() != '/'
            &&& ".git"@.is_suffix_of(path) ==> ".git"@.is_suffix_of(name)
        }),
{
    reveal_strlit(".git");
    let path = owner + seq!['/'] + name;
    let n = owner.len() as int;
    assert(owner.contains(owner[0]));
    assert(name.contains(name.last()));
    assert forall|k: int| 0 <= k < path.len() implies #[trigger] path[k] != '?' && path[k] != '#' by {
        if k < n {
            assert(owner.contains(owner[k]));
        } else if k > n {
            assert(name.contains(name[k - n - 1]));
        }
    }
    if ".git"@.is_suffix_of(path) {
        let m = path.len() - 4;
        assert(path.subrange(m, path.len() as int) =~= ".git"@);
        if name.len() < 4 {
            assert(path.subrange(m, path.len() as int)[n - m] == path[n]);
        } else {
            assert(name.subrange(name.len() - 4, name.len() as int) =~= ".git"@);
        }
    }
}

/// The three usual forms of an address lead to the repository that the path behind them names.
pub proof fn law_address_forms_agree(path: Seq<char>)
    requires
        path.len() > 0 ==> !white_space(path.last()),
    ensures
        repo_of_remote("git@github.com:"@ + path) == repo_of_path(path),
        repo_of_remote("https://github.com/"@ + path) == repo_of_path(path),
        repo_of_remote("ssh://git@github.com/"@ + path) == repo_of_path(path),
{
    reveal_strlit("git@github.com:");
    reveal_strlit("ssh://git@github.com/");
    reveal_strlit("https://github.com/");
    reveal_strlit("github.com/");
    let ssh = "git@github.com:"@;
    let web = "https://github.com/"@;
    let host = "github.com/"@;
    let a = ssh + path;
    assert(a[0] == 'g');
    assert(a.last() == if path.len() > 0 {
        path.last()
    } else {
        ':'
    });
    lemma_trimmed_already(a, CharClass::WhiteSpace);
    assert(a.subrange(0, ssh.len() as int) =~= ssh);
    assert(a.skip(ssh.len() as int) =~= path);
    let b = web + path;
    assert(b[0] == 'h');
    assert(b.last() == if path.len() > 0 {
        path.last()
    } else {
        '/'
    });
    lemma_trimmed_already(b, CharClass::WhiteSpace);
    assert(!ssh.is_prefix_of(b)) by {
        assert(b.subrange(0, ssh.len() as int)[0] == 'h');
    }
    assert(b.subrange(8, 8int + host.len()) =~= host);
    assert(first_occurs_at(b, host, 8)) by {
        assert forall|j: int| 0 <= j < 8 implies !occurs_at(b, host, j) by {
            if occurs_at(b, host, j) {
                assert(b.subrange(j, j + host.len())[0] == b[j]);
            }
        }
    }
    let at = choose|at: int| first_occurs_at(b, host, at);
    assert(at == 8);
    assert(b.skip(at + host.len()) =~= path);
    let c = "ssh://git@github.com/"@ + path;
    assert(c[0] == 's');
    assert(c.last() == if path.len() > 0 {
        path.last()
    } else {
        '/'
    });
    lemma_trimmed_already(c, CharClass::WhiteSpace);
    assert(!ssh.is_prefix_of(c)) by {
        assert(c.subrange(0, ssh.len() as int)[0] == 's');
    }
    assert(c.subrange(10, 10int + host.len()) =~= host);
    assert(first_occurs_at(c, host, 10)) by {
        assert forall|j: int| 0 <= j < 10 implies !occurs_at(c, host, j) by {
            if occurs_at(c, host, j) {
                assert(c.subrange(j, j + host.len())[0] == c[j]);
                assert(c.subrange(j, j + host.len())[3] == c[j + 3]);
            }
        }
    }
    let place = choose|place: int| first_occurs_at(c, host, place);
    assert(place == 10);
    assert(c.skip(place + host.len()) =~= path);
}

/// A path without an owner or without a name names no repository: where there is no slash, and where
/// nothing but white space stands on one side of it.
pub proof fn law_path_without_parts_names_none(owner: Seq<char>, name: Seq<char>)
    requires
        !owner.contains('/') && !owner.contains('?') && !owner.contains('#'),
        !name.contains('/') && !name.contains('?') && !name.contains('#'),
        (forall|k: int| 0 <= k < owner.len() ==> white_space(#[trigger] owner[k])) || (forall|
            k: int,
        |
            0 <= k < name.len() ==> white_space(#[trigger] name[k])),
    ensures
        repo_of_path(owner) is None,
        repo_of_path(owner + seq!['/'] + name) is None,
{
    reveal_strlit(".git");
    let slash = CharClass::Just('/');
    let space = CharClass::WhiteSpace;
    let none = Seq::<char>::empty();
    lemma_one_part_names_none(owner);
    lemma_one_part_names_none(name);
    let path = owner + seq!['/'] + name;
    if owner.len() == 0 {
        law_slashes_around_path_do_not_count(name);
        assert(path =~= seq!['/'] + name);
    } else if name.len() == 0 {
        law_slashes_around_path_do_not_count(owner);
        assert(path =~= owner + seq!['/']);
    } else {
        assert(owner.contains(owner[0]));
        assert(name.contains(name.last()));
        assert forall|k: int| 0 <= k < path.len() implies #[trigger] path[k] != '?' && path[k]
            != '#' by {
            if k < owner.len() {
                assert(owner.contains(owner[k]));
            } else if k > owner.len() {
                assert(name.contains(name[k - owner.len() - 1]));
            }
        }
        lemma_before_whole(path, '?');
        lemma_before_whole(path, '#');
        assert(path[0] == owner[0]);
        assert(path.last() == name.last());
        lemma_trimmed_already(path, slash);
        lemma_before_lead(owner, seq!['/'] + name, '/');
        let cut = if ".git"@.is_suffix_of(path) {
            path.take(path.len() - 4)
        } else {
            path
        };
        let m = path.len() - 4;
        if ".git"@.is_suffix_of(path) {
            let suffix = path.subrange(m, path.len() as int);
            assert(suffix =~= ".git"@);
            assert(suffix[3] == name.last());
            if name.len() < 4 {
                assert(suffix[owner.len() - m] == '/');
            }
        }
        let kept_name = if ".git"@.is_suffix_of(path) {
            name.take(name.len() - 4)
        } else {
            name
        };
        assert(cut =~= owner + seq!['/'] + kept_name);
        crate::chars::law_cutting(owner, '/', kept_name);
        assert(!kept_name.contains('/')) by {
            if kept_name.contains('/') {
                let k = choose|k: int| 0 <= k < kept_name.len() && kept_name[k] == '/';
                assert(name[k] == '/');
            }
        }
        lemma_before_whole(kept_name, '/');
        if forall|k: int| 0 <= k < owner.len() ==> white_space(#[trigger] owner[k]) {
            crate::chars::law_trimming(owner, none, none, space);
            assert(owner + none + none =~= owner);
        } else {
            assert forall|k: int| 0 <= k < kept_name.len() implies white_space(
                #[trigger] kept_name[k],
            ) by {
                assert(white_space(name[k]));
            }
            crate::chars::law_trimming(kept_name, none, none, space);
            assert(kept_name + none + none =~= kept_name);
        }
    }
}

/// A path of one part names no repository.
proof fn lemma_one_part_names_none(part: Seq<char>)
    requires
        !part.contains('/') && !part.contains('?') && !part.contains('#'),
    ensures
        repo_of_path(part) is None,
{
    lemma_before_whole(part, '?');
    lemma_before_whole(part, '#');
    let bare = trim(part, CharClass::Just('/'));
    lemma_trim(part, CharClass::Just('/'));
    let normalized = if ".git"@.is_suffix_of(bare) {
        bare.take(bare.len() - ".git"@.len())
    } else {
        bare
    };
    assert(!normalized.contains('/')) by {
        if normalized.contains('/') {
            let k = choose|k: int| 0 <= k < normalized.len() && normalized[k] == '/';
            assert(bare[k] == '/');
            assert(bare.contains('/'));
        }
    }
    lemma_before_whole(normalized, '/');
}

/// An address that neither names the host nor starts with it names no repository.
pub proof fn law_other_hosts_name_none(remote: Seq<char>)
    requires
        forall|lead: Seq<char>, tail: Seq<char>|
            remote != #[trigger] (lead + "github.com/"@ + tail),
        forall|lead: Seq<char>, tail: Seq<char>|
            remote == #[trigger] (lead + "git@github.com:"@ + tail) ==> exists|k: int|
                0 <= k < lead.len() && !white_space(#[trigger] lead[k]),
    ensures
        repo_of_remote(remote) is None,
{
    let space = CharClass::WhiteSpace;
    let address = trim(remote, space);
    let ssh = "git@github.com:"@;
    let host = "github.com/"@;
    crate::chars::lemma_trim_is_part(remote, space);
    let (lead, tail) = choose|lead: Seq<char>, tail: Seq<char>|
        remote == #[trigger] (lead + address + tail) && forall|k: int|
            0 <= k < lead.len() ==> space.has(#[trigger] lead[k]);
    if ssh.is_prefix_of(address) {
        let rest = address.skip(ssh.len() as int);
        assert(address =~= ssh + rest);
        assert(remote =~= lead + ssh + (rest + tail));
    }
    if contains_text(address, host) {
        crate::chars::lemma_occurs_as_part(address, host);
        let (a, b) = choose|a: Seq<char>, b: Seq<char>| address == #[trigger] (a + host + b);
        assert(remote =~= (lead + a) + host + (b + tail));
    }
}

/// What stands behind the first `github.com/` of an address is the path that names the repository,
/// whatever stands before it.
pub proof fn law_host_anywhere(lead: Seq<char>, path: Seq<char>)
    requires
        lead.len() > 0 ==> !white_space(lead[0]),
        path.len() > 0 ==> !white_space(path.last()),
        !"git@github.com:"@.is_prefix_of(lead + "github.com/"@ + path),
        forall|j: int|
            0 <= j < lead.len() ==> !occurs_at(lead + "github.com/"@, "github.com/"@, j),
    ensures
        repo_of_remote(lead + "github.com/"@ + path) == repo_of_path(path),
{
    let host = "github.com/"@;
    let b = lead + host + path;
    assert(host.len() == 11 && host[0] == 'g' && host[10] == '/') by {
        reveal_strlit("github.com/");
    }
    assert(b.last() == if path.len() > 0 {
        path.last()
    } else {
        '/'
    });
    assert(b[0] == if lead.len() > 0 {
        lead[0]
    } else {
        'g'
    });
    lemma_trimmed_already(b, CharClass::WhiteSpace);
    lemma_first_host(lead, host, path);
    let at = choose|at: int| first_occurs_at(b, host, at);
    assert(at == lead.len());
    assert(b.skip(at + host.len()) =~= path);
}

/// A text that does not stand earlier stands first where it was put.
proof fn lemma_first_host(lead: Seq<char>, host: Seq<char>, path: Seq<char>)
    requires
        host.len() > 0,
        forall|j: int| 0 <= j < lead.len() ==> !occurs_at(lead + host, host, j),
    ensures
        first_occurs_at(lead + host + path, host, lead.len() as int),
{
    let whole = lead + host;
    let b = whole + path;
    let n = lead.len() as int;
    assert(b.subrange(n, n + host.len()) =~= host);
    assert forall|j: int| 0 <= j < n implies !occurs_at(b, host, j) by {
        assert(!occurs_at(whole, host, j));
        assert(b.subrange(j, j + host.len()) =~= whole.subrange(j, j + host.len()));
    }
}

/// White space around the owner and around the name does not matter.
pub proof fn law_white_space_around_parts_does_not_count(
    a: Seq<char>,
    owner: Seq<char>,
    b: Seq<char>,
    c: Seq<char>,
    name: Seq<char>,
    d: Seq<char>,
)
    requires
        is_part(owner),
        is_part(name),
        !".git"@.is_suffix_of(name),
        forall|k: int| 0 <= k < a.len() ==> white_space(#[trigger] a[k]),
        forall|k: int| 0 <= k < b.len() ==> white_space(#[trigger] b[k]),
        forall|k: int| 0 <= k < c.len() ==> white_space(#[trigger] c[k]),
        forall|k: int| 0 <= k < d.len() ==> white_space(#[trigger] d[k]),
    ensures
        repo_of_path((a + owner + b) + seq!['/'] + (c + name + d)) == Some(
            owner + seq!['/'] + name,
        ),
{
    reveal_strlit(".git");
    let left = a + owner + b;
    let right = c + name + d;
    let path = left + seq!['/'] + right;
    lemma_spaced_part(a, owner, b);
    lemma_spaced_part(c, name, d);
    let n = left.len() as int;
    assert forall|k: int| 0 <= k < path.len() implies #[trigger] path[k] != '?' && path[k] != '#' by {
        if k < n {
            assert(left.contains(left[k]));
        } else if k > n {
            assert(right.contains(right[k - n - 1]));
        }
    }
    lemma_before_whole(path, '?');
    lemma_before_whole(path, '#');
    assert(left.contains(left[0]));
    assert(right.contains(right.last()));
    assert(path[0] == left[0]);
    assert(path.last() == right.last());
    lemma_trimmed_already(path, CharClass::Just('/'));
    if ".git"@.is_suffix_of(path) {
        let m = path.len() - 4;
        let suffix = path.subrange(m, path.len() as int);
        assert(suffix =~= ".git"@);
        if d.len() > 0 {
            assert(suffix[3] == d.last());
        } else if right.len() < 4 {
            assert(suffix[n - m] == path[n]);
        } else if name.len() < 4 {
            assert(right[right.len() - name.len() - 1] == c.last());
            assert(suffix[3 - name.len()] == c.last());
        } else {
            assert(name.subrange(name.len() - 4, name.len() as int) =~= ".git"@);
        }
    }
    crate::chars::law_cutting(left, '/', right);
    lemma_before_whole(right, '/');
    lemma_trim_around(a, owner, b, CharClass::WhiteSpace);
    lemma_trim_around(c, name, d, CharClass::WhiteSpace);
    lemma_trimmed_already(owner, CharClass::WhiteSpace);
    lemma_trimmed_already(name, CharClass::WhiteSpace);
}

/// White space around a part brings no character with a meaning in an address.
proof fn lemma_spaced_part(lead: Seq<char>, part: Seq<char>, tail: Seq<char>)
    requires
        is_part(part),
        forall|k: int| 0 <= k < lead.len() ==> white_space(#[trigger] lead[k]),
        forall|k: int| 0 <= k < tail.len() ==> white_space(#[trigger] tail[k]),
    ensures
        !(lead + part + tail).contains('/'),
        !(lead + part + tail).contains('?'),
        !(lead + part + tail).contains('#'),
{
    let all = lead + part + tail;
    assert forall|k: int| 0 <= k < all.len() implies #[trigger] all[k] != '/' && all[k] != '?'
        && all[k] != '#' by {
        if k < lead.len() {
            assert(all[k] == lead[k]);
        } else if k < lead.len() + part.len() {
            assert(part.contains(part[k - lead.len()]));
        } else {
            assert(all[k] == tail[k - lead.len() - part.len()]);
        }
    }
}

} // verus!
