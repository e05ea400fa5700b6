//! Resolution of user-typed paths and classification of what they point at.
use vstd::prelude::*;

use crate::config::{opt_view, MediaKind};
use crate::text::{
    chars_of, eq_ignore_ascii_case, lower_code, same_ignoring_ascii_case, string_from, substring,
    trim_bounds, trimmed,
};

verus! {

/// A snapshot of the process environment: its variables and working directory.
pub struct Environment {
    pub vars: Vec<(String, String)>,
    pub cwd: Option<String>,
}

/// The value of the first variable named `name`.
pub open spec fn lookup(vars: Seq<(String, String)>, name: Seq<char>) -> Option<Seq<char>>
    decreases vars.len(),
{
    if vars.len() == 0 {
        None
    } else if vars[0].0@ == name {
        Some(vars[0].1@)
    } else {
        lookup(vars.drop_first(), name)
    }
}

pub open spec fn home_name() -> Seq<char> {
    seq!['H', 'O', 'M', 'E']
}

impl Environment {
    pub open spec fn var_spec(&self, name: Seq<char>) -> Option<Seq<char>> {
        lookup(self.vars@, name)
    }

    pub open spec fn cwd_spec(&self) -> Option<Seq<char>> {
        opt_view(self.cwd)
    }

    /// The value of variable `name`, if it is set.
    pub fn var(&self, name: &String) -> (r: Option<String>)
        ensures
            opt_view(r) == self.var_spec(name@),
    {
        let n = self.vars.len();
        let mut i: usize = 0;
        assert(self.vars@.subrange(0, n as int) =~= self.vars@);
        while i < n
            invariant
                n == self.vars@.len(),
                i <= n,
                lookup(self.vars@, name@) == lookup(self.vars@.subrange(i as int, n as int), name@),
            decreases n - i,
        {
            assert(self.vars@.subrange(i as int, n as int).drop_first() =~= self.vars@.subrange(
                i + 1,
                n as int,
            ));
            if self.vars[i].0 == *name {
                return Some(self.vars[i].1.clone());
            }
            i = i + 1;
        }
        None
    }

    fn home(&self) -> (r: Option<String>)
        ensures
            opt_view(r) == self.var_spec(home_name()),
    {
        let key = string_from(&['H', 'O', 'M', 'E']);
        assert(key@ == home_name());
        self.var(&key)
    }
}

/// Appends `rest` to `base` the way `PathBuf::push` does: an absolute `rest`
/// replaces `base`, otherwise one separator is put between them.
pub open spec fn push_path(base: Seq<char>, rest: Seq<char>) -> Seq<char> {
    if rest.len() > 0 && rest[0] == '/' {
        rest
    } else if base.len() == 0 || base.last() == '/' {
        base + rest
    } else {
        base + seq!['/'] + rest
    }
}

pub open spec fn is_absolute(p: Seq<char>) -> bool {
    p.len() > 0 && p[0] == '/'
}

/// `~` or `~/rest` with the home directory put in; `None` when the text has
/// no such prefix or `HOME` is unset.
pub open spec fn home_expansion(v: Seq<char>, env: Seq<(String, String)>) -> Option<Seq<char>> {
    if v =~= seq!['~'] {
        lookup(env, home_name())
    } else if v.len() >= 2 && v[0] == '~' && v[1] == '/' {
        match lookup(env, home_name()) {
            Some(h) => Some(push_path(h, v.subrange(2, v.len() as int))),
            None => None,
        }
    } else {
        None
    }
}

pub open spec fn is_name_char(c: char) -> bool {
    c == '_' || ('a' <= c <= 'z') || ('A' <= c <= 'Z') || ('0' <= c <= '9')
}

/// How many characters at the start of `s` may form a variable name.
pub open spec fn name_len(s: Seq<char>) -> nat
    decreases s.len(),
{
    if s.len() > 0 && is_name_char(s[0]) {
        1 + name_len(s.drop_first())
    } else {
        0
    }
}

/// The index of the first `c` in `s`.
pub open spec fn first_index_of(s: Seq<char>, c: char) -> Option<nat>
    decreases s.len(),
{
    if s.len() == 0 {
        None
    } else if s[0] == c {
        Some(0)
    } else {
        match first_index_of(s.drop_first(), c) {
            Some(k) => Some(k + 1),
            None => None,
        }
    }
}

/// `${NAME}rest` or `$NAMErest` with the variable's value put in; `None`
/// when the text has no such prefix or the variable is unset.
pub open spec fn env_expansion(v: Seq<char>, env: Seq<(String, String)>) -> Option<Seq<char>> {
    if v.len() >= 2 && v[0] == '$' && v[1] == '{' {
        let rest = v.subrange(2, v.len() as int);
        match first_index_of(rest, '}') {
            None => None,
            Some(end) => if end == 0 {
                None
            } else {
                match lookup(env, rest.subrange(0, end as int)) {
                    Some(val) => Some(val + rest.subrange(end + 1int, rest.len() as int)),
                    None => None,
                }
            },
        }
    } else if v.len() >= 1 && v[0] == '$' {
        let rest = v.drop_first();
        let n = name_len(rest);
        if n == 0 {
            None
        } else {
            match lookup(env, rest.subrange(0, n as int)) {
                Some(val) => Some(val + rest.subrange(n as int, rest.len() as int)),
                None => None,
            }
        }
    } else {
        None
    }
}

/// The home prefix expanded first, then a variable prefix of the result;
/// a prefix that cannot be expanded is left as it is.
pub open spec fn expanded(v: Seq<char>, env: Seq<(String, String)>) -> Seq<char> {
    let a = match home_expansion(v, env) {
        Some(x) => x,
        None => v,
    };
    match env_expansion(a, env) {
        Some(y) => y,
        None => a,
    }
}

/// What a path typed by the user stands for: `None` for blank text.
pub open spec fn user_path(input: Seq<char>, env: Seq<(String, String)>) -> Option<Seq<char>> {
    let t = trimmed(input);
    if t.len() == 0 {
        None
    } else {
        Some(expanded(t, env))
    }
}

/// An entry's path made absolute: expanded, then placed under the home
/// directory, else under the working directory, else left relative.
pub open spec fn absolute_path(p: Seq<char>, env: Environment) -> Seq<char> {
    if is_absolute(p) {
        p
    } else {
        let raw = expanded(p, env.vars@);
        if is_absolute(raw) {
            raw
        } else {
            match env.var_spec(home_name()) {
                Some(h) => push_path(h, raw),
                None => match env.cwd_spec() {
                    Some(c) => push_path(c, raw),
                    None => raw,
                },
            }
        }
    }
}

/// `PathBuf::push` on texts.
pub fn push_path_text(base: &String, rest: &String) -> (r: String)
    ensures
        r@ == push_path(base@, rest@),
{
    let b = chars_of(base.as_str());
    let t = chars_of(rest.as_str());
    if t.len() > 0 && t[0] == '/' {
        return rest.clone();
    }
    if b.len() == 0 || b[b.len() - 1] == '/' {
        let r = base.clone().concat(rest.as_str());
        return r;
    }
    let sep = string_from(&['/']);
    let r = base.clone().concat(sep.as_str()).concat(rest.as_str());
    assert(r@ =~= push_path(base@, rest@));
    r
}

fn expand_home_prefix(value: &String, env: &Environment) -> (r: Option<String>)
    ensures
        opt_view(r) == home_expansion(value@, env.vars@),
{
    let cs = chars_of(value.as_str());
    if cs.len() == 1 && cs[0] == '~' {
        assert(value@ =~= seq!['~']);
        return env.home();
    }
    if cs.len() >= 2 && cs[0] == '~' && cs[1] == '/' {
        assert(!(value@ =~= seq!['~']));
        let home = match env.home() {
            Some(h) => h,
            None => return None,
        };
        let rest = substring(&cs, 2, cs.len());
        return Some(push_path_text(&home, &rest));
    }
    assert(!(value@ =~= seq!['~']));
    None
}

fn name_prefix_len(cs: &[char], from: usize) -> (r: usize)
    requires
        from <= cs@.len(),
    ensures
        from + r <= cs@.len(),
        r == name_len(cs@.subrange(from as int, cs@.len() as int)),
{
    let n = cs.len();
    let mut j: usize = from;
    while j < n && (cs[j] == '_' || ('a' <= cs[j] && cs[j] <= 'z') || ('A' <= cs[j] && cs[j]
        <= 'Z') || ('0' <= cs[j] && cs[j] <= '9'))
        invariant
            n == cs@.len(),
            from <= j <= n,
            name_len(cs@.subrange(from as int, n as int)) == (j - from) + name_len(
                cs@.subrange(j as int, n as int),
            ),
        decreases n - j,
    {
        assert(cs@.subrange(j as int, n as int).drop_first() =~= cs@.subrange(j + 1, n as int));
        j = j + 1;
    }
    j - from
}

fn first_close_brace(cs: &[char], from: usize) -> (r: Option<usize>)
    requires
        from <= cs@.len(),
    ensures
        match r {
            Some(e) => from <= e < cs@.len() && first_index_of(
                cs@.subrange(from as int, cs@.len() as int),
                '}',
            ) == Some((e - from) as nat),
            None => first_index_of(cs@.subrange(from as int, cs@.len() as int), '}') is None,
        },
{
    let n = cs.len();
    let mut j: usize = from;
    while j < n
        invariant
            n == cs@.len(),
            from <= j <= n,
            first_index_of(cs@.subrange(from as int, n as int), '}') == (match first_index_of(
                cs@.subrange(j as int, n as int),
                '}',
            ) {
                Some(k) => Some((k + (j - from)) as nat),
                None => None,
            }),
        decreases n - j,
    {
        assert(cs@.subrange(j as int, n as int).drop_first() =~= cs@.subrange(j + 1, n as int));
        if cs[j] == '}' {
            return Some(j);
        }
        j = j + 1;
    }
    None
}

fn expand_env_prefix(value: &String, env: &Environment) -> (r: Option<String>)
    ensures
        opt_view(r) == env_expansion(value@, env.vars@),
{
    let cs = chars_of(value.as_str());
    let n = cs.len();
    assert(cs@ == value@);
    if n >= 2 && cs[0] == '$' && cs[1] == '{' {
        proof {
            let rest = value@.subrange(2, n as int);
            assert(cs@.subrange(2, n as int) =~= rest);
        }
        let end = match first_close_brace(&cs, 2) {
            Some(e) => e,
            None => return None,
        };
        proof {
            let rest = value@.subrange(2, n as int);
            assert(first_index_of(rest, '}') == Some((end - 2) as nat));
        }
        if end == 2 {
            return None;
        }
        let name = substring(&cs, 2, end);
        proof {
            let rest = value@.subrange(2, n as int);
            assert(name@ =~= rest.subrange(0, end - 2));
        }
        let val = match env.var(&name) {
            Some(v) => v,
            None => return None,
        };
        let remainder = substring(&cs, end + 1, n);
        let r = val.concat(remainder.as_str());
        proof {
            let rest = value@.subrange(2, n as int);
            assert(remainder@ =~= rest.subrange(end - 2 + 1, rest.len() as int));
        }
        return Some(r);
    }
    if n >= 1 && cs[0] == '$' {
        let len = name_prefix_len(&cs, 1);
        proof {
            assert(cs@.subrange(1, n as int) =~= value@.drop_first());
        }
        if len == 0 {
            return None;
        }
        let name = substring(&cs, 1, 1 + len);
        proof {
            let rest = value@.drop_first();
            assert(name@ =~= rest.subrange(0, len as int));
        }
        let val = match env.var(&name) {
            Some(v) => v,
            None => return None,
        };
        let remainder = substring(&cs, 1 + len, n);
        proof {
            let rest = value@.drop_first();
            assert(remainder@ =~= rest.subrange(len as int, rest.len() as int));
        }
        return Some(val.concat(remainder.as_str()));
    }
    None
}

/// Expands a leading `~` and then a leading `$NAME` or `${NAME}`.
pub fn expand_leading_tokens(value: &String, env: &Environment) -> (r: String)
    ensures
        r@ == expanded(value@, env.vars@),
{
    let current = match expand_home_prefix(value, env) {
        Some(e) => e,
        None => value.clone(),
    };
    match expand_env_prefix(&current, env) {
        Some(e) => e,
        None => current,
    }
}

/// Turns a path typed into the editor into a path, expanding a leading `~`
/// and environment variable; blank text gives `None`.
pub fn parse_user_path(input: &str, env: &Environment) -> (r: Option<String>)
    ensures
        opt_view(r) == user_path(input@, env.vars@),
{
    let cs = chars_of(input);
    let (lo, hi) = trim_bounds(&cs);
    if lo == hi {
        return None;
    }
    let t = substring(&cs, lo, hi);
    Some(expand_leading_tokens(&t, env))
}

/// The absolute form of an entry's path, before symbolic links are resolved.
pub fn normalize_entry_path(path: &String, env: &Environment) -> (r: String)
    ensures
        r@ == absolute_path(path@, *env),
{
    let cs = chars_of(path.as_str());
    if cs.len() > 0 && cs[0] == '/' {
        return path.clone();
    }
    let raw = expand_leading_tokens(path, env);
    let rc = chars_of(raw.as_str());
    if rc.len() > 0 && rc[0] == '/' {
        return raw;
    }
    match env.home() {
        Some(h) => push_path_text(&h, &raw),
        None => match &env.cwd {
            Some(c) => push_path_text(c, &raw),
            None => raw,
        },
    }
}

/// What the file system reports for a path (following symbolic links).
#[derive(Debug, Clone, Copy, PartialEq, Eq, Structural)]
pub enum FileType {
    Directory,
    File,
    /// Neither a directory nor a regular file (a socket, a device, ...).
    Other,
}

/// Why a path could not be classified as a wallpaper source.
#[derive(Debug, Clone, PartialEq, Eq)]
pub enum MediaError {
    /// Nothing could be read at the path.
    Inaccessible(String),
    /// The path is neither a file nor a folder.
    NotFileOrFolder(String),
}

/// Whether the last character of `p` is a `.` that forms a component by
/// itself (the whole text, or right after a separator).
pub open spec fn ends_with_dot_component(p: Seq<char>) -> bool {
    p.len() > 0 && p.last() == '.' && (p.len() == 1 || p[p.len() - 2] == '/')
}

/// The length of `p` once trailing separators and trailing `.` components
/// are dropped, as `Path` drops them when it splits a path into components.
pub open spec fn name_end(p: Seq<char>) -> nat
    decreases p.len(),
{
    if p.len() > 0 && (p.last() == '/' || ends_with_dot_component(p)) {
        name_end(p.drop_last())
    } else {
        p.len()
    }
}

/// Where the last component of `p` starts.
pub open spec fn component_start(p: Seq<char>) -> nat
    decreases p.len(),
{
    if p.len() == 0 {
        0
    } else if p.last() == '/' {
        p.len()
    } else {
        component_start(p.drop_last())
    }
}

/// The index of the last `.` in `p`.
pub open spec fn last_dot(p: Seq<char>) -> Option<nat>
    decreases p.len(),
{
    if p.len() == 0 {
        None
    } else if p.last() == '.' {
        Some((p.len() - 1) as nat)
    } else {
        last_dot(p.drop_last())
    }
}

/// The file name of `p`: its last component, trailing separators and `.`
/// components ignored.
pub open spec fn file_name(p: Seq<char>) -> Seq<char> {
    let q = p.subrange(0, name_end(p) as int);
    q.subrange(component_start(q) as int, q.len() as int)
}

/// The extension of `p`: what follows the last `.` of its file name, unless
/// that dot starts the name.
pub open spec fn extension(p: Seq<char>) -> Option<Seq<char>> {
    let name = file_name(p);
    match last_dot(name) {
        Some(k) => if k == 0 {
            None
        } else {
            Some(name.subrange(k + 1int, name.len() as int))
        },
        None => None,
    }
}

/// The extensions that mark a file as a video.
pub open spec fn video_extensions() -> Seq<Seq<char>> {
    seq![
        "mp4"@, "mkv"@, "webm"@, "mov"@, "avi"@, "flv"@, "wmv"@, "m4v"@, "mpg"@, "mpeg"@,
        "ogv"@, "ts"@, "m2ts"@, "mxf"@, "3gp"@, "m4p"@,
    ]
}

pub open spec fn has_video_extension(p: Seq<char>) -> bool {
    match extension(p) {
        Some(e) => exists|k: int|
            0 <= k < video_extensions().len() && same_ignoring_ascii_case(
                e,
                #[trigger] video_extensions()[k],
            ),
        None => false,
    }
}

/// Whether the path's extension, ignoring ASCII case, is a known video one.
pub fn is_probably_video(path: &String) -> (r: bool)
    ensures
        r == has_video_extension(path@),
{
    let cs = chars_of(path.as_str());
    let n = cs.len();
    let mut end: usize = n;
    assert(cs@.subrange(0, n as int) =~= cs@);
    while end > 0 && (cs[end - 1] == '/' || (cs[end - 1] == '.' && (end == 1 || cs[end - 2]
        == '/')))
        invariant
            end <= n == cs@.len(),
            name_end(cs@) == name_end(cs@.subrange(0, end as int)),
        decreases end,
    {
        assert(cs@.subrange(0, end as int).drop_last() =~= cs@.subrange(0, end - 1));
        end = end - 1;
    }
    let ghost q = cs@.subrange(0, end as int);
    assert(name_end(cs@) == end);
    let mut start: usize = end;
    assert(q.subrange(0, end as int) =~= q);
    while start > 0 && cs[start - 1] != '/'
        invariant
            start <= end <= n == cs@.len(),
            q == cs@.subrange(0, end as int),
            component_start(q) == component_start(q.subrange(0, start as int)),
        decreases start,
    {
        assert(q.subrange(0, start as int).drop_last() =~= q.subrange(0, start - 1));
        start = start - 1;
    }
    let ghost name = q.subrange(start as int, end as int);
    assert(component_start(q) == start);
    assert(file_name(path@) == name);
    let mut k: usize = end;
    assert(name.subrange(0, (end - start) as int) =~= name);
    while k > start && cs[k - 1] != '.'
        invariant
            start <= k <= end <= n == cs@.len(),
            name == cs@.subrange(start as int, end as int),
            last_dot(name) == last_dot(name.subrange(0, k - start)),
        decreases k,
    {
        assert(name.subrange(0, k - start).drop_last() =~= name.subrange(0, k - start - 1));
        k = k - 1;
    }
    if k == start {
        assert(name.subrange(0, 0) =~= Seq::<char>::empty());
        return false;
    }
    assert(name.subrange(0, k - start).last() == '.');
    if k - 1 == start {
        return false;
    }
    let ghost ext = name.subrange(k - start, name.len() as int);
    assert(cs@.subrange(k as int, end as int) =~= ext);
    let exts = vec![
        "mp4", "mkv", "webm", "mov", "avi", "flv", "wmv", "m4v", "mpg", "mpeg", "ogv", "ts",
        "m2ts", "mxf", "3gp", "m4p",
    ];
    assert(exts@.len() == 16);
    let mut i: usize = 0;
    while i < exts.len()
        invariant
            k <= end <= cs@.len(),
            ext == cs@.subrange(k as int, end as int),
            extension(path@) == Some(ext),
            exts@.len() == video_extensions().len(),
            forall|j: int| 0 <= j < exts@.len() ==> #[trigger] exts@[j]@ == video_extensions()[j],
            i <= exts@.len(),
            forall|j: int| 0 <= j < i ==> !same_ignoring_ascii_case(ext, video_extensions()[j]),
        decreases exts@.len() - i,
    {
        if eq_ignore_ascii_case(&cs, k, end, exts[i]) {
            return true;
        }
        i = i + 1;
    }
    false
}

/// A file whose extension is `png` is no video, so `detect_media_kind`
/// classifies it as an image.
pub proof fn lemma_png_is_not_video(p: Seq<char>)
    requires
        extension(p) == Some("png"@),
    ensures
        !has_video_extension(p),
{
    let e = "png"@;
    reveal_strlit("png");
    reveal_strlit("mp4");
    reveal_strlit("mkv");
    reveal_strlit("webm");
    reveal_strlit("mov");
    reveal_strlit("avi");
    reveal_strlit("flv");
    reveal_strlit("wmv");
    reveal_strlit("m4v");
    reveal_strlit("mpg");
    reveal_strlit("mpeg");
    reveal_strlit("ogv");
    reveal_strlit("ts");
    reveal_strlit("m2ts");
    reveal_strlit("mxf");
    reveal_strlit("3gp");
    reveal_strlit("m4p");
        assert(lower_code(e[0]) != lower_code(video_extensions()[0][0]));
        assert(lower_code(e[0]) != lower_code(video_extensions()[1][0]));
        assert(e.len() != video_extensions()[2].len());
        assert(lower_code(e[0]) != lower_code(video_extensions()[3][0]));
        assert(lower_code(e[0]) != lower_code(video_extensions()[4][0]));
        assert(lower_code(e[0]) != lower_code(video_extensions()[5][0]));
        assert(lower_code(e[0]) != lower_code(video_extensions()[6][0]));
        assert(lower_code(e[0]) != lower_code(video_extensions()[7][0]));
        assert(lower_code(e[0]) != lower_code(video_extensions()[8][0]));
        assert(e.len() != video_extensions()[9].len());
        assert(lower_code(e[0]) != lower_code(video_extensions()[10][0]));
        assert(e.len() != video_extensions()[11].len());
        assert(e.len() != video_extensions()[12].len());
        assert(lower_code(e[0]) != lower_code(video_extensions()[13][0]));
        assert(lower_code(e[0]) != lower_code(video_extensions()[14][0]));
        assert(lower_code(e[0]) != lower_code(video_extensions()[15][0]));
    assert forall|k: int| 0 <= k < video_extensions().len() implies !same_ignoring_ascii_case(
        e,
        #[trigger] video_extensions()[k],
    ) by {
        if k == 0 {
            } else if k == 1 {
            } else if k == 2 {
            } else if k == 3 {
            } else if k == 4 {
            } else if k == 5 {
            } else if k == 6 {
            } else if k == 7 {
            } else if k == 8 {
            } else if k == 9 {
            } else if k == 10 {
            } else if k == 11 {
            } else if k == 12 {
            } else if k == 13 {
            } else if k == 14 {
            } else {
            }
    }
}

/// Classifies `path`: a directory is a folder, a file with a video
/// extension a video, any other file an image.
pub fn detect_media_kind(path: &String, stat: Option<FileType>) -> (r: Result<
    MediaKind,
    MediaError,
>)
    ensures
        match r {
            Ok(MediaKind::Folder(p)) => p@ == path@ && stat == Some(FileType::Directory),
            Ok(MediaKind::Video(p)) => p@ == path@ && stat == Some(FileType::File)
                && has_video_extension(path@),
            Ok(MediaKind::Image(p)) => p@ == path@ && stat == Some(FileType::File)
                && !has_video_extension(path@),
            Err(MediaError::Inaccessible(p)) => p@ == path@ && stat is None,
            Err(MediaError::NotFileOrFolder(p)) => p@ == path@ && stat == Some(FileType::Other),
        },
{
    match stat {
        None => Err(MediaError::Inaccessible(path.clone())),
        Some(FileType::Directory) => Ok(MediaKind::Folder(path.clone())),
        Some(FileType::File) => {
            if is_probably_video(path) {
                Ok(MediaKind::Video(path.clone()))
            } else {
                Ok(MediaKind::Image(path.clone()))
            }
        },
        Some(FileType::Other) => Err(MediaError::NotFileOrFolder(path.clone())),
    }
}

pub open spec fn xdg_config_name() -> Seq<char> {
    "XDG_CONFIG_HOME"@
}

/// The directory that holds the profile: `wpe` under `$XDG_CONFIG_HOME`, else
/// under `$HOME/.config`; `None` when neither variable is set.
pub open spec fn config_dir_of(env: Environment) -> Option<Seq<char>> {
    match env.var_spec(xdg_config_name()) {
        Some(x) => Some(push_path(x, "wpe"@)),
        None => match env.var_spec(home_name()) {
            Some(h) => Some(push_path(push_path(h, ".config"@), "wpe"@)),
            None => None,
        },
    }
}

/// The directory that holds the profile file.
pub fn config_dir(env: &Environment) -> (r: Option<String>)
    ensures
        opt_view(r) == config_dir_of(*env),
{
    let xdg = "XDG_CONFIG_HOME".to_owned();
    let wpe = "wpe".to_owned();
    let base = match env.var(&xdg) {
        Some(x) => x,
        None => match env.home() {
            Some(h) => push_path_text(&h, &".config".to_owned()),
            None => return None,
        },
    };
    Some(push_path_text(&base, &wpe))
}

/// The profile file: `config.toml` in the profile directory.
pub fn config_file_path(env: &Environment) -> (r: Option<String>)
    ensures
        opt_view(r) == match config_dir_of(*env) {
            Some(d) => Some(push_path(d, "config.toml"@)),
            None => None,
        },
{
    match config_dir(env) {
        Some(d) => Some(push_path_text(&d, &"config.toml".to_owned())),
        None => None,
    }
}

} // verus!
