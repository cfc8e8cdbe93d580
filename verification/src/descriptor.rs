//! The operation that one invocation asks for.

use crate::failure::{result_view, Failure, FailureView};
use vstd::prelude::*;

verus! {

/// What an invocation does.
#[derive(Debug, Clone, Copy, PartialEq, Eq, Structural)]
pub enum Mode {
    /// Forward-transform the source file.
    Encrypt,
    /// Inverse-transform the source file.
    Decrypt,
    /// Print the program's version.
    ShowVersion,
    /// Print the usage text.
    ShowHelp,
    /// Do nothing.
    Noop,
}

/// The two directions in which the engine transforms text.
#[derive(Debug, Clone, Copy, PartialEq, Eq, Structural)]
pub enum Direction {
    /// Plain content into encoded form.
    Forward,
    /// Encoded form back into plain content.
    Inverse,
}

impl Mode {
    /// The direction of the transform that this mode asks for, if it asks
    /// for one.
    pub open spec fn spec_direction(self) -> Option<Direction> {
        match self {
            Mode::Encrypt => Some(Direction::Forward),
            Mode::Decrypt => Some(Direction::Inverse),
            _ => None,
        }
    }

    /// The direction of the transform that this mode asks for, if it asks
    /// for one.
    #[verifier::when_used_as_spec(spec_direction)]
    pub fn direction(self) -> (d: Option<Direction>)
        ensures
            d == self.spec_direction(),
    {
        match self {
            Mode::Encrypt => Some(Direction::Forward),
            Mode::Decrypt => Some(Direction::Inverse),
            _ => None,
        }
    }
}

/// An operation descriptor with its path as a character sequence.
pub struct DescriptorView {
    pub mode: Mode,
    pub source_path: Option<Seq<char>>,
    pub overwrite_allowed: bool,
    pub write_to_file: bool,
}

impl DescriptorView {
    /// A transform has a source file to work on.
    pub open spec fn wf(self) -> bool {
        self.mode.direction() is Some ==> self.source_path is Some
    }
}

/// The descriptor made of the four settings, or the reason why they make
/// none: a transform without a source file.
pub open spec fn described(
    mode: Mode,
    source_path: Option<Seq<char>>,
    overwrite_allowed: bool,
    write_to_file: bool,
) -> Result<DescriptorView, FailureView> {
    if mode.direction() is Some && source_path is None {
        Err(FailureView::MissingPath)
    } else {
        Ok(DescriptorView { mode, source_path, overwrite_allowed, write_to_file })
    }
}

/// One invocation's operation: what to do, on which file, and how the result
/// is delivered. It does not change once it is made.
#[derive(Debug, PartialEq, Eq)]
pub struct OperationDescriptor {
    mode: Mode,
    source_path: Option<String>,
    overwrite_allowed: bool,
    write_to_file: bool,
}

impl View for OperationDescriptor {
    type V = DescriptorView;

    closed spec fn view(&self) -> DescriptorView {
        DescriptorView {
            mode: self.mode,
            source_path: match self.source_path {
                Some(path) => Some(path@),
                None => None,
            },
            overwrite_allowed: self.overwrite_allowed,
            write_to_file: self.write_to_file,
        }
    }
}

impl Clone for OperationDescriptor {
    fn clone(&self) -> (copy: Self)
        ensures
            copy@ == self@,
    {
        proof {
            use_type_invariant(self);
        }
        OperationDescriptor {
            mode: self.mode,
            source_path: match &self.source_path {
                Some(path) => Some(path.clone()),
                None => None,
            },
            overwrite_allowed: self.overwrite_allowed,
            write_to_file: self.write_to_file,
        }
    }
}

impl OperationDescriptor {
    #[verifier::type_invariant]
    closed spec fn well_formed(self) -> bool {
        self@.wf()
    }

    /// Makes a descriptor of the four settings. A transform needs a source
    /// file: without one there is no descriptor.
    pub fn new(
        mode: Mode,
        source_path: Option<String>,
        overwrite_allowed: bool,
        write_to_file: bool,
    ) -> (r: Result<OperationDescriptor, Failure>)
        ensures
            result_view(r) == described(
                mode,
                source_path.deep_view(),
                overwrite_allowed,
                write_to_file,
            ),
    {
        if mode.direction().is_some() && source_path.is_none() {
            Err(Failure::MissingPath)
        } else {
            Ok(OperationDescriptor { mode, source_path, overwrite_allowed, write_to_file })
        }
    }

    /// What the invocation does.
    pub fn mode(&self) -> (m: Mode)
        ensures
            m == self@.mode,
    {
        self.mode
    }

    /// The file that the operation works on. A transform always has one.
    pub fn source_path(&self) -> (p: Option<&str>)
        ensures
            p.deep_view() == self@.source_path,
            self@.wf(),
    {
        proof {
            use_type_invariant(self);
        }
        match &self.source_path {
            Some(path) => Some(path.as_str()),
            None => None,
        }
    }

    /// Whether an existing destination file may be replaced.
    pub fn overwrite_allowed(&self) -> (b: bool)
        ensures
            b == self@.overwrite_allowed,
    {
        self.overwrite_allowed
    }

    /// Whether the result goes to a file; otherwise it goes to standard
    /// output.
    pub fn write_to_file(&self) -> (b: bool)
        ensures
            b == self@.write_to_file,
    {
        self.write_to_file
    }
}

} // verus!
