//! Binding the command line to one directory: either the command runs in the
//! directory, or it runs where the caller stands and is told the directory's
//! manifest.

use vstd::prelude::*;
use crate::error::ErrorKind;
use crate::paths::{manifest_of, manifest_path, text_view};

verus! {

/// The option that tells the command which manifest to work on; the path of
/// the manifest follows it as an argument of its own.
pub const MANIFEST_FLAG: &'static str = "--manifest-path";

/// What a command template holds.
pub ghost struct TemplateView {
    /// The program.
    pub program: Seq<char>,
    /// The subcommand, and after it the arguments that trail it.
    pub args: Seq<Seq<char>>,
}

/// The command line that is run in every directory: a program, a
/// subcommand, and the arguments that trail it. It never changes.
#[derive(Debug)]
pub struct CommandTemplate {
    program: String,
    args: Vec<String>,
}

impl View for CommandTemplate {
    type V = TemplateView;

    closed spec fn view(&self) -> TemplateView {
        TemplateView { program: self.program@, args: self.args.deep_view() }
    }
}

impl CommandTemplate {
    /// A template has a subcommand.
    #[verifier::type_invariant]
    pub closed spec fn well_formed(&self) -> bool {
        self.args.len() > 0
    }

    /// A well-formed template has a subcommand.
    pub proof fn lemma_has_subcommand(&self)
        requires
            self.well_formed(),
        ensures
            self@.args.len() > 0,
    {
    }

    /// The template of `program` with `args`, of which the first is the
    /// subcommand. There is none where `args` is empty.
    pub fn new(program: String, args: Vec<String>) -> (template: Option<CommandTemplate>)
        ensures
            template is None <==> args.len() == 0,
            template matches Some(t) ==> t.well_formed() && t@ == (TemplateView {
                program: program@,
                args: args.deep_view(),
            }),
    {
        if args.len() == 0 {
            None
        } else {
            Some(CommandTemplate { program, args })
        }
    }

    /// The program.
    pub fn program(&self) -> (program: &String)
        ensures
            program@ == self@.program,
    {
        &self.program
    }

    /// The subcommand, and after it the arguments that trail it.
    pub fn args(&self) -> (args: &Vec<String>)
        ensures
            args.deep_view() == self@.args,
            args.len() > 0,
    {
        proof {
            use_type_invariant(self);
        }
        &self.args
    }
}

/// What an invocation holds.
pub ghost struct InvocationView {
    /// The program.
    pub program: Seq<char>,
    /// All its arguments.
    pub args: Seq<Seq<char>>,
    /// The directory in which it runs, or `None` for the directory in which
    /// the caller stands.
    pub working_dir: Option<Seq<char>>,
}

/// A command that is ready to be run for one directory.
#[derive(Debug)]
pub struct ResolvedInvocation {
    /// The program.
    pub program: String,
    /// All its arguments.
    pub args: Vec<String>,
    /// The directory in which it runs, or `None` for the directory in which
    /// the caller stands.
    pub working_dir: Option<String>,
}

impl View for ResolvedInvocation {
    type V = InvocationView;

    open spec fn view(&self) -> InvocationView {
        InvocationView {
            program: self.program@,
            args: self.args.deep_view(),
            working_dir: self.working_dir.deep_view(),
        }
    }
}

/// `args` with the manifest flag and `path` put in behind the subcommand.
pub open spec fn with_manifest(args: Seq<Seq<char>>, path: Seq<char>) -> Seq<Seq<char>>
    recommends
        args.len() > 0,
{
    seq![args[0], MANIFEST_FLAG@, path] + args.skip(1)
}

/// The invocation of `template` for the directory `target`.
///
/// Without `manifest_mode` the template's arguments are taken as they are,
/// and the command runs in `target`. With it the command runs where the
/// caller stands, and the manifest of `canonical`, the canonical form of
/// `target`, is put in behind the subcommand; where the directory has no
/// canonical form, there is no invocation.
pub open spec fn built(
    template: TemplateView,
    target: Seq<char>,
    manifest_mode: bool,
    canonical: Option<Seq<char>>,
) -> Result<InvocationView, ErrorKind> {
    if !manifest_mode {
        Ok(
            InvocationView {
                program: template.program,
                args: template.args,
                working_dir: Some(target),
            },
        )
    } else {
        match canonical {
            Some(dir) => Ok(
                InvocationView {
                    program: template.program,
                    args: with_manifest(template.args, manifest_of(dir)),
                    working_dir: None,
                },
            ),
            None => Err(ErrorKind::PathResolutionError),
        }
    }
}

/// The view of an invocation that may have failed to be built.
pub open spec fn built_view(built: Result<ResolvedInvocation, ErrorKind>) -> Result<
    InvocationView,
    ErrorKind,
> {
    match built {
        Ok(invocation) => Ok(invocation@),
        Err(kind) => Err(kind),
    }
}

/// A copy of `texts`.
pub fn copy_texts(texts: &Vec<String>) -> (copy: Vec<String>)
    ensures
        copy.deep_view() == texts.deep_view(),
{
    let mut copy: Vec<String> = Vec::new();
    let mut i: usize = 0;
    while i < texts.len()
        invariant
            i <= texts.len(),
            copy.len() == i,
            forall|j: int| 0 <= j < i ==> (#[trigger] copy[j])@ == texts[j]@,
        decreases texts.len() - i,
    {
        copy.push(texts[i].clone());
        i += 1;
    }
    assert(copy.deep_view() =~= texts.deep_view());
    copy
}

/// `args` with the manifest flag and `path` put in behind the subcommand.
pub fn insert_manifest(args: &Vec<String>, path: String) -> (bound: Vec<String>)
    requires
        args.len() > 0,
    ensures
        bound.deep_view() == with_manifest(args.deep_view(), path@),
{
    let ghost wanted = with_manifest(args.deep_view(), path@);
    let mut bound: Vec<String> = Vec::new();
    bound.push(args[0].clone());
    bound.push(MANIFEST_FLAG.to_owned());
    bound.push(path);
    let mut i: usize = 1;
    while i < args.len()
        invariant
            1 <= i <= args.len(),
            bound.len() == i + 2,
            wanted == with_manifest(args.deep_view(), path@),
            forall|j: int| 0 <= j < i + 2 ==> (#[trigger] bound[j])@ == wanted[j],
        decreases args.len() - i,
    {
        bound.push(args[i].clone());
        i += 1;
    }
    assert(bound.deep_view() =~= wanted);
    bound
}

/// Builds the invocation of `template` for the directory `target`.
/// `canonical` is the canonical form of `target`, or `None` where it has
/// none, as for a directory that is gone; it is looked at in manifest mode
/// only.
pub fn build(
    template: &CommandTemplate,
    target: &str,
    manifest_mode: bool,
    canonical: Option<&str>,
) -> (invocation: Result<ResolvedInvocation, ErrorKind>)
    ensures
        built_view(invocation) == built(
            template@,
            target@,
            manifest_mode,
            text_view(canonical),
        ),
{
    let program = template.program().clone();
    if !manifest_mode {
        Ok(
            ResolvedInvocation {
                program,
                args: copy_texts(template.args()),
                working_dir: Some(target.to_owned()),
            },
        )
    } else {
        match canonical {
            Some(dir) => Ok(
                ResolvedInvocation {
                    program,
                    args: insert_manifest(template.args(), manifest_path(dir)),
                    working_dir: None,
                },
            ),
            None => Err(ErrorKind::PathResolutionError),
        }
    }
}

/// Binding a command to a directory changes its arguments in one way only.
/// Without manifest mode they stay as they are. With it, the manifest flag
/// and the manifest's path stand directly behind the subcommand, and every
/// argument of the template is still there, in its order: the subcommand at
/// the front, the others moved back by two.
pub proof fn lemma_build_keeps_arguments(
    template: TemplateView,
    target: Seq<char>,
    manifest_mode: bool,
    canonical: Option<Seq<char>>,
)
    requires
        template.args.len() > 0,
        built(template, target, manifest_mode, canonical) is Ok,
    ensures
        ({
            let args = built(template, target, manifest_mode, canonical)->Ok_0.args;
            if manifest_mode {
                &&& canonical is Some
                &&& args.len() == template.args.len() + 2
                &&& args[0] == template.args[0]
                &&& args[1] == MANIFEST_FLAG@
                &&& args[2] == manifest_of(canonical->0)
                &&& forall|i: int| 1 <= i < template.args.len() ==> args[i + 2] == template.args[i]
                &&& args.remove(1).remove(1) == template.args
            } else {
                args == template.args
            }
        }),
{
    if manifest_mode {
        let args = built(template, target, manifest_mode, canonical)->Ok_0.args;
        assert(args.remove(1).remove(1) =~= template.args);
    }
}

/// An invocation is bound to its directory in exactly one way: it runs in
/// the directory or it names the directory's manifest, as the mode says.
pub proof fn lemma_build_binds_one_way(
    template: TemplateView,
    target: Seq<char>,
    manifest_mode: bool,
    canonical: Option<Seq<char>>,
)
    requires
        built(template, target, manifest_mode, canonical) is Ok,
    ensures
        built(template, target, manifest_mode, canonical)->Ok_0.working_dir is Some
            <==> !manifest_mode,
        !manifest_mode ==> built(template, target, manifest_mode, canonical)->Ok_0.working_dir
            == Some(target),
{
}

} // verus!
