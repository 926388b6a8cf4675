//! Decisions of the command-line program: where to read and write, which kind of
//! curve a node describes, and which development to run.
use crate::text::chars_of;
use vstd::prelude::*;

verus! {

/// Command-line arguments: develop a curve according to a parameterization given as JSON.
pub struct Args {
    /// Where to read the parameterization; stdin when absent or `-`.
    pub parameterization: Option<String>,
    /// Where to write the result; stdout when absent or `-`.
    pub output: Option<String>,
}

/// A place to read from or write to.
pub enum Stream {
    /// Standard input or output.
    Standard,
    /// The file at this path.
    Path(String),
}

/// `-` names the standard stream.
pub open spec fn names_standard(path: Seq<char>) -> bool {
    path == seq!['-']
}

/// The stream an optional path argument names.
pub open spec fn stream_for(arg: Option<String>, s: Stream) -> bool {
    match arg {
        Some(p) if !names_standard(p@) => s == Stream::Path(p),
        _ => s is Standard,
    }
}

fn is_dash(p: &String) -> (b: bool)
    ensures
        b == names_standard(p@),
{
    let cs = chars_of(p.as_str());
    let b = cs.len() == 1 && cs[0] == '-';
    assert(b ==> cs@ =~= seq!['-']);
    b
}

/// The stream that an optional path argument names.
pub fn stream_choice(arg: &Option<String>) -> (s: Stream)
    ensures
        stream_for(*arg, s),
{
    match arg {
        Some(p) => {
            if is_dash(p) {
                Stream::Standard
            } else {
                Stream::Path(p.clone())
            }
        },
        None => Stream::Standard,
    }
}

impl Args {
    /// Where the parameterization is read from.
    pub fn input(&self) -> (s: Stream)
        ensures
            stream_for(self.parameterization, s),
    {
        stream_choice(&self.parameterization)
    }

    /// Where the result is written to.
    pub fn output(&self) -> (s: Stream)
        ensures
            stream_for(self.output, s),
    {
        stream_choice(&self.output)
    }
}

/// The kind of curve a node appends.
pub enum NodeKind {
    Spiral,
    Hermite,
}

/// A node names neither or both of the kinds.
pub struct NodeError;

impl NodeError {
    pub fn message(&self) -> (m: String)
        ensures
            m@ == "Node must be one of `spiral`, `hermite`"@,
    {
        String::from_str("Node must be one of `spiral`, `hermite`")
    }
}

/// A node must name exactly one kind of curve.
pub fn node_kind(has_spiral: bool, has_hermite: bool) -> (r: Result<NodeKind, NodeError>)
    ensures
        r matches Ok(NodeKind::Spiral) <==> has_spiral && !has_hermite,
        r matches Ok(NodeKind::Hermite) <==> !has_spiral && has_hermite,
        r is Err <==> has_spiral == has_hermite,
{
    if has_spiral && !has_hermite {
        Ok(NodeKind::Spiral)
    } else if has_hermite && !has_spiral {
        Ok(NodeKind::Hermite)
    } else {
        Err(NodeError)
    }
}

/// What a parameterization asks to develop.
pub enum Development {
    /// A surface along the curve, steered by surface parameters.
    Surface,
    /// A triangular pipe around the curve.
    Pipe,
}

/// Surface parameters take precedence over a pipe description; with neither there is
/// nothing to develop.
pub fn development(has_parameter: bool, has_pipe: bool) -> (d: Option<Development>)
    ensures
        d matches Some(Development::Surface) <==> has_parameter,
        d matches Some(Development::Pipe) <==> !has_parameter && has_pipe,
        d is None <==> !has_parameter && !has_pipe,
{
    if has_parameter {
        Some(Development::Surface)
    } else if has_pipe {
        Some(Development::Pipe)
    } else {
        None
    }
}

/// A path argument names the standard stream exactly when it is absent or `-`; any other
/// path is used as given.
pub proof fn lemma_stream_choice(arg: Option<String>, s: Stream)
    requires
        stream_for(arg, s),
    ensures
        (s is Standard) <==> (arg is None || arg->0@ == seq!['-']),
        s matches Stream::Path(p) ==> arg == Some(p),
{
}

} // verus!
