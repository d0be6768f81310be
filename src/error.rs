use vstd::prelude::*;

verus! {

/// Why a label could not be made or printed.
#[derive(Clone, Copy, Debug, PartialEq, Eq, Structural)]
pub enum LabelError {
    /// No template of the requested name could be read.
    TemplateNotFound,
    /// The content does not fit the template's expressions.
    RenderError,
    /// The layout engine failed to load, measure or export the document.
    DocumentEngineError,
    /// The markup holds no label element, or one of no size.
    ElementNotFound,
    /// The job's ephemeral storage could not be created or written.
    StorageError,
    /// The print command failed.
    PrintSubsystemError,
}

impl LabelError {
    /// What went wrong, naming the component that failed.
    pub open spec fn message_spec(&self) -> Seq<char> {
        match self {
            LabelError::TemplateNotFound => "template renderer: template not found"@,
            LabelError::RenderError => "template renderer: content does not fit the template"@,
            LabelError::DocumentEngineError => "document engine: load, measure or export failed"@,
            LabelError::ElementNotFound => "document engine: no #label element of some size"@,
            LabelError::StorageError => "artifact producer: ephemeral storage failed"@,
            LabelError::PrintSubsystemError => "print dispatcher: print command failed"@,
        }
    }

    /// What went wrong, naming the component that failed.
    pub fn message(&self) -> (r: String)
        ensures
            r@ == self.message_spec(),
    {
        match self {
            LabelError::TemplateNotFound => "template renderer: template not found".to_owned(),
            LabelError::RenderError => "template renderer: content does not fit the template".to_owned(),
            LabelError::DocumentEngineError => "document engine: load, measure or export failed".to_owned(),
            LabelError::ElementNotFound => "document engine: no #label element of some size".to_owned(),
            LabelError::StorageError => "artifact producer: ephemeral storage failed".to_owned(),
            LabelError::PrintSubsystemError => "print dispatcher: print command failed".to_owned(),
        }
    }
}

} // verus!
