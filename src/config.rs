use vstd::prelude::*;

verus! {

/// A configured case transform for one positional argument (1-based).
pub struct CommitMessageArguments {
    pub argument: i32,
    pub case: Option<String>,
}

/// The configuration the resolver reads.
pub struct GlitterRc {
    /// The commit-message template.
    pub commit_message: String,
    /// Case transforms, applied in order to the arguments they name.
    pub commit_message_arguments: Option<Vec<CommitMessageArguments>>,
}

/// What was given on the command line: the action and its positional arguments.
pub struct Arguments {
    pub action: String,
    pub arguments: Vec<String>,
}

/// The case rules of a configuration; none when absent.
pub open spec fn rules_of(config: GlitterRc) -> Seq<CommitMessageArguments> {
    match config.commit_message_arguments {
        Some(v) => v@,
        None => Seq::empty(),
    }
}

} // verus!
