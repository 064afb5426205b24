//! Building the shell command line that runs the external conversion script:
//! a `cd` into the script's directory, the script's bare name, the option
//! flags in declared order, then one argument per source/target file pair.
use vstd::prelude::*;
use vstd::string::{StrSliceExecFns, StringExecFns};

use crate::chars::{find_last, matches_at};
use crate::path::{ensure_unix_path, ensure_unix_spec};

verus! {

/// The caller's request: shell, script, flags, and the file pairs to convert.
pub struct ParseOptions {
    pub command: String,
    pub bash_file: String,
    pub gpu: bool,
    pub resize: Option<String>,
    pub bitrate: Option<String>,
    pub files: Vec<(String, Option<String>)>,
}

/// The built invocation: the shell executable and its argument words.
pub struct ParseCommand {
    pub command: String,
    pub args: Vec<String>,
}

/// The mathematical content of a `ParseCommand`.
pub struct CommandModel {
    pub command: Seq<char>,
    pub args: Seq<Seq<char>>,
}

impl View for ParseCommand {
    type V = CommandModel;

    open spec fn view(&self) -> CommandModel {
        CommandModel { command: self.command@, args: self.args.deep_view() }
    }
}

impl DeepView for ParseCommand {
    type V = CommandModel;

    open spec fn deep_view(&self) -> CommandModel {
        self.view()
    }
}

/// `i` is the position of the last `/` of the path.
pub open spec fn is_last_slash(s: Seq<char>, i: int) -> bool {
    &&& 0 <= i < s.len()
    &&& s[i] == '/'
    &&& forall|j: int| i < j < s.len() ==> s[j] != '/'
}

/// The path contains a `/`.
pub open spec fn has_slash(s: Seq<char>) -> bool {
    exists|i: int| 0 <= i < s.len() && s[i] == '/'
}

/// Position of the last `/` of the path.
pub open spec fn last_slash_index(s: Seq<char>) -> int {
    choose|i: int| is_last_slash(s, i)
}

/// The directory part of the script path: everything before the last slash,
/// or `/` itself when the slash is the leading character.
pub open spec fn script_parent(s: Seq<char>) -> Seq<char> {
    if last_slash_index(s) == 0 {
        seq!['/']
    } else {
        s.subrange(0, last_slash_index(s))
    }
}

/// The `cd <normalized parent> &&` argument.
pub open spec fn cd_arg_spec(parent: Seq<char>) -> Seq<char> {
    seq!['c', 'd', ' '] + ensure_unix_spec(parent) + seq![' ', '&', '&']
}

/// Length of the path once trailing slashes are stripped: the file name
/// ignores a trailing separator, the way `Path` reads one.
pub open spec fn rstrip_slashes(s: Seq<char>) -> int
    decreases s.len(),
{
    if s.len() > 0 && s[s.len() - 1] == '/' {
        rstrip_slashes(s.drop_last())
    } else {
        s.len() as int
    }
}

/// The arguments that stand for the script itself: with trailing separators
/// ignored, a `cd` into its parent directory when the path has one, then its
/// bare file name.  A path without any slash is passed through as the single
/// argument, with no `cd`; an empty or all-slash path contributes nothing.
pub open spec fn bash_file_args_spec(s: Seq<char>) -> Seq<Seq<char>> {
    let t = s.subrange(0, rstrip_slashes(s));
    if t.len() == 0 {
        Seq::empty()
    } else if !has_slash(t) {
        seq![t]
    } else {
        let k = last_slash_index(t);
        seq![cd_arg_spec(script_parent(t)), t.subrange(k + 1, t.len() as int)]
    }
}

/// The `--gpu` flag word.
pub open spec fn gpu_arg() -> Seq<char> {
    seq!['-', '-', 'g', 'p', 'u']
}

/// The `--resize` flag word.
pub open spec fn resize_arg() -> Seq<char> {
    seq!['-', '-', 'r', 'e', 's', 'i', 'z', 'e']
}

/// The `--bitrate` flag word.
pub open spec fn bitrate_arg() -> Seq<char> {
    seq!['-', '-', 'b', 'i', 't', 'r', 'a', 't', 'e']
}

/// The flag words, in their declared order: `--gpu`, then `--resize` with its
/// value, then `--bitrate` with its value, each present iff requested.
pub open spec fn flags_args_spec(
    gpu: bool,
    resize: Option<Seq<char>>,
    bitrate: Option<Seq<char>>,
) -> Seq<Seq<char>> {
    (if gpu {
        seq![gpu_arg()]
    } else {
        Seq::empty()
    }) + (match resize {
        Some(r) => seq![resize_arg(), r],
        None => Seq::empty(),
    }) + (match bitrate {
        Some(b) => seq![bitrate_arg(), b],
        None => Seq::empty(),
    })
}

/// One argument per file pair: the normalized source, with the normalized
/// target appended after a colon when a target was supplied.
pub open spec fn file_arg_spec(source: Seq<char>, target: Option<Seq<char>>) -> Seq<char> {
    match target {
        Some(t) => ensure_unix_spec(source) + seq![':'] + ensure_unix_spec(t),
        None => ensure_unix_spec(source),
    }
}

/// The view of one file pair.
pub open spec fn file_pair_view(p: (String, Option<String>)) -> (Seq<char>, Option<Seq<char>>) {
    (
        p.0@,
        match p.1 {
            Some(t) => Some(t@),
            None => None,
        },
    )
}

/// The view of the file list.
pub open spec fn files_view(files: Seq<(String, Option<String>)>) -> Seq<
    (Seq<char>, Option<Seq<char>>),
> {
    files.map_values(|p: (String, Option<String>)| file_pair_view(p))
}

/// The view of an optional flag value.
pub open spec fn opt_view(o: Option<String>) -> Option<Seq<char>> {
    match o {
        Some(s) => Some(s@),
        None => None,
    }
}

/// The file arguments, in input order.
pub open spec fn files_args_spec(files: Seq<(Seq<char>, Option<Seq<char>>)>) -> Seq<Seq<char>> {
    files.map_values(|f: (Seq<char>, Option<Seq<char>>)| file_arg_spec(f.0, f.1))
}

/// The whole argument list: script part, flags, then files.
pub open spec fn build_args_spec(
    bash_file: Seq<char>,
    gpu: bool,
    resize: Option<Seq<char>>,
    bitrate: Option<Seq<char>>,
    files: Seq<(Seq<char>, Option<Seq<char>>)>,
) -> Seq<Seq<char>> {
    bash_file_args_spec(bash_file) + flags_args_spec(gpu, resize, bitrate) + files_args_spec(files)
}

/// Where a run of trailing slashes starts, `rstrip_slashes` stops.
proof fn lemma_rstrip_value(s: Seq<char>, e: int)
    requires
        0 <= e <= s.len(),
        forall|j: int| e <= j < s.len() ==> s[j] == '/',
        e == 0 || s[e - 1] != '/',
    ensures
        rstrip_slashes(s) == e,
    decreases s.len(),
{
    if s.len() > e {
        assert(s[s.len() - 1] == '/');
        let t = s.drop_last();
        assert(t =~= s.subrange(0, s.len() - 1));
        lemma_rstrip_value(t, e);
    }
}

/// Turns the script path into its argument words.
pub fn ensure_bash_file(bash_file: &str) -> (r: Vec<String>)
    ensures
        r.deep_view() == bash_file_args_spec(bash_file@),
{
    let n = bash_file.unicode_len();
    let mut e: usize = n;
    while e > 0 && bash_file.get_char(e - 1) == '/'
        invariant
            e <= n,
            n == bash_file@.len(),
            forall|j: int| e <= j < n ==> bash_file@[j] == '/',
        decreases e,
    {
        e -= 1;
    }
    proof {
        lemma_rstrip_value(bash_file@, e as int);
    }
    if e == 0 {
        let r: Vec<String> = Vec::new();
        proof {
            assert(r.deep_view() =~= Seq::<Seq<char>>::empty());
        }
        return r;
    }
    let t = bash_file.substring_char(0, e);
    let found = find_last(t, "/", 0);
    proof {
        reveal_strlit("/");
        assert("/"@ =~= seq!['/']);
    }
    match found {
        None => {
            proof {
                assert forall|i: int| 0 <= i < t@.len() implies t@[i] != '/' by {
                    if t@[i] == '/' {
                        assert(t@.subrange(i, i + 1) =~= seq!['/']);
                        assert(matches_at(t@, "/"@, i));
                    }
                }
            }
            let mut r: Vec<String> = Vec::new();
            r.push(String::from_str(t));
            proof {
                assert(r.deep_view() =~= seq![t@]);
            }
            r
        },
        Some(k) => {
            proof {
                assert(t@.subrange(k as int, k + 1) =~= seq!['/']);
                assert(t@[k as int] == '/') by {
                    assert(t@.subrange(k as int, k + 1)[0] == t@[k as int]);
                }
                assert(is_last_slash(t@, k as int)) by {
                    assert forall|j: int| k < j < t@.len() implies t@[j] != '/' by {
                        if t@[j] == '/' {
                            assert(t@.subrange(j, j + 1) =~= seq!['/']);
                            assert(matches_at(t@, "/"@, j));
                        }
                    }
                }
                assert(has_slash(t@));
                let k2 = last_slash_index(t@);
                assert(is_last_slash(t@, k2));
                assert(k2 == k as int) by {
                    if k2 < k as int {
                        assert(t@[k as int] == '/');
                    }
                    if k2 > k as int {
                        assert(t@[k2] == '/');
                    }
                }
            }
            let parent_norm = if k == 0 {
                proof {
                    reveal_strlit("/");
                }
                ensure_unix_path("/")
            } else {
                ensure_unix_path(t.substring_char(0, k))
            };
            let mut cd = String::from_str("cd ");
            cd.append(parent_norm.as_str());
            cd.append(" &&");
            proof {
                reveal_strlit("cd ");
                reveal_strlit(" &&");
                assert("cd "@ =~= seq!['c', 'd', ' ']);
                assert(" &&"@ =~= seq![' ', '&', '&']);
                assert(cd@ == cd_arg_spec(script_parent(t@)));
            }
            let mut r: Vec<String> = Vec::new();
            r.push(cd);
            r.push(String::from_str(t.substring_char(k + 1, e)));
            proof {
                assert(r.deep_view() =~= bash_file_args_spec(bash_file@));
            }
            r
        },
    }
}

impl ParseCommand {
    /// Assembles the full invocation from the caller's options: script part,
    /// `--gpu` iff set, `--resize`/`--bitrate` iff present, then the files in
    /// input order.
    pub fn build(options: ParseOptions) -> (r: ParseCommand)
        ensures
            r.command@ == options.command@,
            r.args.deep_view() == build_args_spec(
                options.bash_file@,
                options.gpu,
                opt_view(options.resize),
                opt_view(options.bitrate),
                files_view(options.files@),
            ),
    {
        let ParseOptions { command, bash_file, gpu, resize, bitrate, files } = options;
        let mut args = ensure_bash_file(bash_file.as_str());
        let ghost script_part = bash_file_args_spec(bash_file@);
        if gpu {
            args.push(String::from_str("--gpu"));
            proof {
                reveal_strlit("--gpu");
                assert("--gpu"@ =~= gpu_arg());
            }
        }
        match &resize {
            Some(rv) => {
                args.push(String::from_str("--resize"));
                args.push(rv.clone());
                proof {
                    reveal_strlit("--resize");
                    assert("--resize"@ =~= resize_arg());
                }
            },
            None => {},
        }
        match &bitrate {
            Some(bv) => {
                args.push(String::from_str("--bitrate"));
                args.push(bv.clone());
                proof {
                    reveal_strlit("--bitrate");
                    assert("--bitrate"@ =~= bitrate_arg());
                }
            },
            None => {},
        }
        let ghost flag_part = flags_args_spec(gpu, opt_view(resize), opt_view(bitrate));
        proof {
            assert(args.deep_view() =~= script_part + flag_part);
        }
        let mut i: usize = 0;
        while i < files.len()
            invariant
                i <= files.len(),
                args.deep_view() == script_part + flag_part + files_args_spec(
                    files_view(files@.subrange(0, i as int)),
                ),
            decreases files.len() - i,
        {
            let ghost old_dv = args.deep_view();
            let ghost fa = file_arg_spec(files@[i as int].0@, opt_view(files@[i as int].1));
            let source = ensure_unix_path(files[i].0.as_str());
            match &files[i].1 {
                Some(t) => {
                    let mut a = source;
                    a.append(":");
                    proof {
                        reveal_strlit(":");
                        assert(":"@ =~= seq![':']);
                    }
                    let tn = ensure_unix_path(t.as_str());
                    a.append(tn.as_str());
                    proof {
                        assert(a@ == fa);
                    }
                    args.push(a);
                },
                None => {
                    proof {
                        assert(source@ == fa);
                    }
                    args.push(source);
                },
            }
            proof {
                let fs0 = files_args_spec(files_view(files@.subrange(0, i as int)));
                assert(args.deep_view() =~= old_dv.push(fa));
                assert(files_view(files@.subrange(0, i + 1)) =~= files_view(
                    files@.subrange(0, i as int),
                ).push(file_pair_view(files@[i as int])));
                assert(files_args_spec(files_view(files@.subrange(0, i + 1))) =~= fs0.push(fa));
                assert(script_part + flag_part + fs0.push(fa) =~= (script_part + flag_part
                    + fs0).push(fa));
                assert(args.deep_view() == script_part + flag_part + files_args_spec(
                    files_view(files@.subrange(0, i + 1)),
                ));
            }
            i += 1;
        }
        proof {
            assert(files@.subrange(0, files@.len() as int) =~= files@);
        }
        ParseCommand { command, args }
    }

    /// The argument words joined with single spaces.
    pub fn args_str(&self) -> (r: String)
        ensures
            r@ == join_spec(self.args.deep_view()),
    {
        join_with_spaces(&self.args)
    }

    /// The three arguments handed to the shell itself: `--login`, `-c`, and
    /// the joined script command line.
    pub fn shell_args(&self) -> (r: Vec<String>)
        ensures
            r.deep_view() == seq![
                seq!['-', '-', 'l', 'o', 'g', 'i', 'n'],
                seq!['-', 'c'],
                join_spec(self.args.deep_view()),
            ],
    {
        let mut r: Vec<String> = Vec::new();
        r.push(String::from_str("--login"));
        r.push(String::from_str("-c"));
        r.push(self.args_str());
        proof {
            reveal_strlit("--login");
            reveal_strlit("-c");
            assert("--login"@ =~= seq!['-', '-', 'l', 'o', 'g', 'i', 'n']);
            assert("-c"@ =~= seq!['-', 'c']);
            assert(r.deep_view() =~= seq![
                seq!['-', '-', 'l', 'o', 'g', 'i', 'n'],
                seq!['-', 'c'],
                join_spec(self.args.deep_view()),
            ]);
        }
        r
    }
}

/// The words joined with a single space between neighbours.
pub open spec fn join_spec(parts: Seq<Seq<char>>) -> Seq<char>
    decreases parts.len(),
{
    if parts.len() == 0 {
        Seq::empty()
    } else if parts.len() == 1 {
        parts[0]
    } else {
        parts[0] + seq![' '] + join_spec(parts.drop_first())
    }
}

/// Joining one appended word appends a space and the word.
pub proof fn lemma_join_snoc(parts: Seq<Seq<char>>, x: Seq<char>)
    requires
        parts.len() > 0,
    ensures
        join_spec(parts.push(x)) == join_spec(parts) + seq![' '] + x,
    decreases parts.len(),
{
    let p = parts.push(x);
    if parts.len() == 1 {
        assert(p.drop_first() =~= seq![x]);
        assert(join_spec(seq![x]) == x);
        assert(p[0] + seq![' '] + join_spec(p.drop_first()) == parts[0] + seq![' '] + x);
    } else {
        assert(p.drop_first() =~= parts.drop_first().push(x));
        lemma_join_snoc(parts.drop_first(), x);
        assert(p[0] + seq![' '] + (join_spec(parts.drop_first()) + seq![' '] + x) =~= (parts[0]
            + seq![' '] + join_spec(parts.drop_first())) + seq![' '] + x);
    }
}

/// Joins the words with single spaces.
fn join_with_spaces(parts: &Vec<String>) -> (r: String)
    ensures
        r@ == join_spec(parts.deep_view()),
{
    let mut out = String::new();
    let mut i: usize = 0;
    while i < parts.len()
        invariant
            i <= parts.len(),
            out@ == join_spec(parts.deep_view().subrange(0, i as int)),
        decreases parts.len() - i,
    {
        if i > 0 {
            out.append(" ");
            proof {
                reveal_strlit(" ");
                assert(" "@ =~= seq![' ']);
            }
        }
        out.append(parts[i].as_str());
        proof {
            let dv = parts.deep_view();
            if i == 0 {
                assert(dv.subrange(0, 1) =~= seq![dv[0]]);
                assert(out@ == join_spec(dv.subrange(0, 1)));
            } else {
                lemma_join_snoc(dv.subrange(0, i as int), dv[i as int]);
                assert(dv.subrange(0, i + 1) =~= dv.subrange(0, i as int).push(dv[i as int]));
            }
        }
        i += 1;
    }
    proof {
        assert(parts.deep_view().subrange(0, parts.deep_view().len() as int) =~= parts.deep_view());
    }
    out
}

/// Law: setting the hardware-acceleration flag inserts `--gpu` immediately
/// after the script part, before the resize, bitrate and file arguments;
/// nothing else changes.
pub proof fn lemma_gpu_flag_position(
    bash_file: Seq<char>,
    resize: Option<Seq<char>>,
    bitrate: Option<Seq<char>>,
    files: Seq<(Seq<char>, Option<Seq<char>>)>,
)
    ensures
        build_args_spec(bash_file, true, resize, bitrate, files) == build_args_spec(
            bash_file,
            false,
            resize,
            bitrate,
            files,
        ).insert(bash_file_args_spec(bash_file).len() as int, gpu_arg()),
{
    assert(build_args_spec(bash_file, true, resize, bitrate, files) =~= build_args_spec(
        bash_file,
        false,
        resize,
        bitrate,
        files,
    ).insert(bash_file_args_spec(bash_file).len() as int, gpu_arg()));
}

/// Law: the file arguments keep their input order: the `i`-th file pair
/// stands at position `i` after the script and flag arguments.
pub proof fn lemma_files_preserve_order(
    bash_file: Seq<char>,
    gpu: bool,
    resize: Option<Seq<char>>,
    bitrate: Option<Seq<char>>,
    files: Seq<(Seq<char>, Option<Seq<char>>)>,
    i: int,
)
    requires
        0 <= i < files.len(),
    ensures
        build_args_spec(bash_file, gpu, resize, bitrate, files).len() == bash_file_args_spec(
            bash_file,
        ).len() + flags_args_spec(gpu, resize, bitrate).len() + files.len(),
        build_args_spec(bash_file, gpu, resize, bitrate, files)[bash_file_args_spec(
            bash_file,
        ).len() + flags_args_spec(gpu, resize, bitrate).len() + i] == file_arg_spec(
            files[i].0,
            files[i].1,
        ),
{
}

} // verus!
