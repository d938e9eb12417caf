use vstd::prelude::*;

verus! {

/// A global or per-file option of the transcoder command line.  The leading
/// dash is inserted when the invocation is rendered.
#[derive(Clone, Debug)]
pub enum Parameter {
    /// An option without a value.
    Single(String),
    /// An option followed by its value.
    KeyValue(String, String),
}

/// One input or output of the transcoder: a path and its ordered options.
#[derive(Clone, Debug)]
pub struct FileSpec {
    pub path: String,
    pub options: Vec<Parameter>,
}

/// A fully assembled transcoder invocation.  It is built once per job (or
/// per segment) and never mutated afterwards; re-running means building a
/// new one.
#[derive(Clone, Debug)]
pub struct Invocation {
    /// The executable to run: a resolved absolute path, or the bare command
    /// name left to the process search path.
    pub command: String,
    pub globals: Vec<Parameter>,
    pub inputs: Vec<FileSpec>,
    pub outputs: Vec<FileSpec>,
}

/// The rendering of one option: a dash is prefixed, and a valued option
/// contributes its value as a separate argument.
pub open spec fn spec_param_args(p: Parameter) -> Seq<Seq<char>> {
    match p {
        Parameter::Single(s) => seq![seq!['-'] + s@],
        Parameter::KeyValue(k, v) => seq![seq!['-'] + k@, v@],
    }
}

/// The rendering of an option list, in order.
pub open spec fn spec_params_args(ps: Seq<Parameter>) -> Seq<Seq<char>>
    decreases ps.len(),
{
    if ps.len() == 0 {
        Seq::empty()
    } else {
        spec_params_args(ps.drop_last()) + spec_param_args(ps.last())
    }
}

/// The rendering of one file: its options first, then the path, which for
/// an input is announced by the input flag.
pub open spec fn spec_file_args(f: FileSpec, is_input: bool) -> Seq<Seq<char>> {
    spec_params_args(f.options@) + (if is_input {
        seq!["-i"@, f.path@]
    } else {
        seq![f.path@]
    })
}

/// The rendering of a file list, in order.
pub open spec fn spec_files_args(fs: Seq<FileSpec>, is_input: bool) -> Seq<Seq<char>>
    decreases fs.len(),
{
    if fs.len() == 0 {
        Seq::empty()
    } else {
        spec_files_args(fs.drop_last(), is_input) + spec_file_args(fs.last(), is_input)
    }
}

/// The complete argument list of an invocation: global options, then every
/// input, then every output.
pub open spec fn spec_args(inv: Invocation) -> Seq<Seq<char>> {
    spec_params_args(inv.globals@) + spec_files_args(inv.inputs@, true) + spec_files_args(
        inv.outputs@,
        false,
    )
}

/// The character sequences of a list of strings.
pub open spec fn views(ss: Seq<String>) -> Seq<Seq<char>> {
    ss.map_values(|s: String| s@)
}

/// No output path of the invocation names one of its input paths, so a run
/// can never overwrite a source.
pub open spec fn no_overwrite(inv: Invocation) -> bool {
    forall|i: int, j: int|
        0 <= i < inv.outputs@.len() && 0 <= j < inv.inputs@.len() ==> (
        #[trigger] inv.outputs@[i]).path@ != (#[trigger] inv.inputs@[j]).path@
}

fn push_param(args: &mut Vec<String>, p: &Parameter)
    ensures
        views(final(args)@) == views(old(args)@) + spec_param_args(*p),
{
    proof {
        reveal_strlit("-");
    }
    match p {
        Parameter::Single(s) => {
            args.push(String::from_str("-").concat(s.as_str()));
        },
        Parameter::KeyValue(k, v) => {
            args.push(String::from_str("-").concat(k.as_str()));
            args.push(v.clone());
        },
    }
    proof {
        assert(views(args@) =~~= views(old(args)@) + spec_param_args(*p));
    }
}

fn append_params(args: &mut Vec<String>, ps: &Vec<Parameter>)
    ensures
        views(final(args)@) == views(old(args)@) + spec_params_args(ps@),
{
    let mut i: usize = 0;
    while i < ps.len()
        invariant
            i <= ps@.len(),
            views(args@) == views(old(args)@) + spec_params_args(ps@.take(i as int)),
        decreases ps@.len() - i,
    {
        push_param(args, &ps[i]);
        proof {
            assert(ps@.take(i + 1).drop_last() =~= ps@.take(i as int));
            assert(ps@.take(i + 1).last() == ps@[i as int]);
            assert(views(args@) =~~= views(old(args)@) + spec_params_args(ps@.take(i + 1)));
        }
        i = i + 1;
    }
    proof {
        assert(ps@.take(ps@.len() as int) =~= ps@);
    }
}

fn append_file(args: &mut Vec<String>, f: &FileSpec, is_input: bool)
    ensures
        views(final(args)@) == views(old(args)@) + spec_file_args(*f, is_input),
{
    append_params(args, &f.options);
    let ghost mid = args@;
    if is_input {
        args.push(String::from_str("-i"));
        args.push(f.path.clone());
        proof {
            assert(views(args@) =~~= views(mid) + seq!["-i"@, f.path@]);
            assert(views(args@) =~~= views(old(args)@) + spec_file_args(*f, is_input));
        }
    } else {
        args.push(f.path.clone());
        proof {
            assert(views(args@) =~~= views(mid) + seq![f.path@]);
            assert(views(args@) =~~= views(old(args)@) + spec_file_args(*f, is_input));
        }
    }
}

fn append_files(args: &mut Vec<String>, fs: &Vec<FileSpec>, is_input: bool)
    ensures
        views(final(args)@) == views(old(args)@) + spec_files_args(fs@, is_input),
{
    let mut i: usize = 0;
    while i < fs.len()
        invariant
            i <= fs@.len(),
            views(args@) == views(old(args)@) + spec_files_args(fs@.take(i as int), is_input),
        decreases fs@.len() - i,
    {
        append_file(args, &fs[i], is_input);
        proof {
            assert(fs@.take(i + 1).drop_last() =~= fs@.take(i as int));
            assert(fs@.take(i + 1).last() == fs@[i as int]);
            assert(views(args@) =~~= views(old(args)@) + spec_files_args(
                fs@.take(i + 1),
                is_input,
            ));
        }
        i = i + 1;
    }
    proof {
        assert(fs@.take(fs@.len() as int) =~= fs@);
    }
}

impl Invocation {
    /// Renders the invocation as the argument list handed to the
    /// transcoder process, exactly in the order the parts were assembled.
    pub fn args(&self) -> (r: Vec<String>)
        ensures
            views(r@) == spec_args(*self),
    {
        let mut args: Vec<String> = Vec::new();
        append_params(&mut args, &self.globals);
        append_files(&mut args, &self.inputs, true);
        append_files(&mut args, &self.outputs, false);
        proof {
            assert(views(args@) =~~= spec_args(*self));
        }
        args
    }
}

} // verus!
