//! The ways in which a build fails.

use crate::models::datetime::TimeFormatError;
use vstd::prelude::*;

verus! {

/// Why a build failed. Every failure ends the build.
#[derive(Debug)]
pub enum BuildError {
    /// The metadata of the document at the path could not be read.
    Parse { path: String, reason: String },
    /// A date of the document at the path could not be read.
    TimeFormat { path: String, error: TimeFormatError },
    /// The theme has no template of this name.
    TemplateNotFound(String),
    /// The template of this name could not be rendered.
    Render { template: String, reason: String },
    /// A file could not be read or written.
    Io(String),
}

/// The failure in words.
pub open spec fn error_text(e: BuildError) -> Seq<char> {
    match e {
        BuildError::Parse { path, reason } => "parse "@ + path@ + ": "@ + reason@,
        BuildError::TimeFormat { path, error } => "parse "@ + path@ + ": time string is not valid: "@
            + error.text(),
        BuildError::TemplateNotFound(name) => "template not found: "@ + name@,
        BuildError::Render { template, reason } => "render "@ + template@ + ": "@ + reason@,
        BuildError::Io(reason) => "io: "@ + reason@,
    }
}

impl BuildError {
    /// The failure in words.
    pub fn message(&self) -> (m: String)
        ensures
            m@ == error_text(*self),
    {
        match self {
            BuildError::Parse { path, reason } => {
                let mut m = String::from_str("parse ");
                m.append(path.as_str());
                m.append(": ");
                m.append(reason.as_str());
                m
            },
            BuildError::TimeFormat { path, error } => {
                let mut m = String::from_str("parse ");
                m.append(path.as_str());
                m.append(": ");
                let inner = error.message();
                m.append(inner.as_str());
                assert(m@ =~= "parse "@ + path@ + ": time string is not valid: "@ + error.text()) by {
                    reveal_strlit(": ");
                    reveal_strlit("time string is not valid: ");
                    reveal_strlit(": time string is not valid: ");
                }
                m
            },
            BuildError::TemplateNotFound(name) => {
                let mut m = String::from_str("template not found: ");
                m.append(name.as_str());
                m
            },
            BuildError::Render { template, reason } => {
                let mut m = String::from_str("render ");
                m.append(template.as_str());
                m.append(": ");
                m.append(reason.as_str());
                m
            },
            BuildError::Io(reason) => {
                let mut m = String::from_str("io: ");
                m.append(reason.as_str());
                m
            },
        }
    }

    /// The failure of rendering `template`: the template is missing where
    /// the theme does not know it, else it could not be rendered.
    pub fn render_failure(known: bool, template: &str, reason: &str) -> (e: BuildError)
        ensures
            (match e {
                BuildError::Render { template: t, reason: r } => known && t@ == template@ && r@
                    == reason@,
                BuildError::TemplateNotFound(t) => !known && t@ == template@,
                _ => false,
            }),
    {
        if known {
            BuildError::Render {
                template: String::from_str(template),
                reason: String::from_str(reason),
            }
        } else {
            BuildError::TemplateNotFound(String::from_str(template))
        }
    }
}

} // verus!
