use vstd::prelude::*;

verus! {

broadcast use vstd::group_vstd_default;

/// Errors that actions, hooks and mappers report.
#[derive(Clone, Debug)]
pub enum Error {
    Action(String),
    Pipeline(String),
    System(String),
    Unsupported(String),
    NotFound(String),
}

pub(crate) fn join(prefix: &str, detail: &str) -> (r: String)
    ensures
        r@ == prefix@ + detail@,
{
    let mut out = String::from_str(prefix);
    out.append(detail);
    out
}

impl Error {
    pub fn action(msg: &str) -> (r: Error)
        ensures
            r matches Error::Action(m) && m@ == msg@,
    {
        Error::Action(String::from_str(msg))
    }

    pub fn pipeline(msg: &str) -> (r: Error)
        ensures
            r matches Error::Pipeline(m) && m@ == msg@,
    {
        Error::Pipeline(String::from_str(msg))
    }

    pub fn system(msg: &str) -> (r: Error)
        ensures
            r matches Error::System(m) && m@ == msg@,
    {
        Error::System(String::from_str(msg))
    }

    /// The label that the error's text begins with.
    pub open spec fn label(&self) -> Seq<char> {
        match self {
            Error::Action(_) => "Action error: "@,
            Error::Pipeline(_) => "Pipeline error: "@,
            Error::System(_) => "System error: "@,
            Error::Unsupported(_) => "Library error: "@,
            Error::NotFound(_) => "Not found error: "@,
        }
    }

    /// The detail the error carries.
    pub open spec fn detail(&self) -> Seq<char> {
        match self {
            Error::Action(m) => m@,
            Error::Pipeline(m) => m@,
            Error::System(m) => m@,
            Error::Unsupported(m) => m@,
            Error::NotFound(m) => m@,
        }
    }

    /// The error as text: its label, then its detail.
    pub fn to_string(&self) -> (r: String)
        ensures
            r@ == self.label() + self.detail(),
    {
        match self {
            Error::Action(m) => join("Action error: ", m.as_str()),
            Error::Pipeline(m) => join("Pipeline error: ", m.as_str()),
            Error::System(m) => join("System error: ", m.as_str()),
            Error::Unsupported(m) => join("Library error: ", m.as_str()),
            Error::NotFound(m) => join("Not found error: ", m.as_str()),
        }
    }
}

/// Errors of a pipeline run.
#[derive(Clone, Debug)]
pub enum EngineError {
    /// An action failed, or no action was registered under a step's name.
    Action(String),
    /// The cancellation signal was observed.
    Canceled,
    /// A fatal routing, configuration or mapping problem.
    Other(String),
}

impl EngineError {
    /// The text of the error.
    pub open spec fn text(&self) -> Seq<char> {
        match self {
            EngineError::Action(m) => "Action failed: "@ + m@,
            EngineError::Canceled => "Pipeline canceled"@,
            EngineError::Other(m) => "Other error: "@ + m@,
        }
    }

    /// The error as text.
    pub fn to_string(&self) -> (r: String)
        ensures
            r@ == self.text(),
    {
        match self {
            EngineError::Action(m) => join("Action failed: ", m.as_str()),
            EngineError::Canceled => String::from_str("Pipeline canceled"),
            EngineError::Other(m) => join("Other error: ", m.as_str()),
        }
    }
}

/// Errors of the pipeline host layer.
#[derive(Clone, Debug)]
pub enum FlowError {
    PipelineNotFound(String),
    Store(String),
    Engine(String),
    Loader(String),
}

} // verus!
