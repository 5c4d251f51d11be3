//! Status codes of the driver and the error type built on them.

use vstd::prelude::*;
use vstd::string::*;
use crate::decimal::{decimal, decimal_digits};
use crate::text::{lemma_occurs_between, occurs_in};

verus! {

/// The status code that the driver returns when a call succeeded.
pub const CUDA_SUCCESS: u32 = 0;

/// A raw status code as a driver entry point returned it.
///
/// The driver owns the meaning of every value; this type only carries the
/// number. Codes that this crate has no name for are as valid as the others.
#[allow(non_camel_case_types)]
#[derive(Clone, Copy, Debug, PartialEq, Eq, Structural)]
pub struct cudaError_enum(pub u32);

/// What went wrong in a call to the driver or while loading it.
#[derive(Debug)]
pub enum CudaError {
    /// A driver entry point returned a status other than success.
    NativeStatus(cudaError_enum),
    /// The dynamic loader could not open the library or bind a symbol.
    LoadFailure(libloading::Error),
}

/// The loader's error type, `libloading::Error`, carried through unopened.
#[verifier::external_type_specification]
#[verifier::external_body]
pub struct ExLoaderError(libloading::Error);

/// The text that `libloading` writes for one of its errors.
pub uninterp spec fn loader_report(e: &libloading::Error) -> Seq<char>;

/// Calls the `Display` impl of `libloading::Error`.
///
/// Trusted, not proved: the text depends on the error value alone (the
/// system's own description where the loader recorded one, a fixed sentence
/// otherwise), so it is given the name `loader_report`.
#[verifier::external_body]
fn loader_text(e: &libloading::Error) -> (s: String)
    ensures
        s@ == loader_report(e),
{
    e.to_string()
}

/// The driver's name for a status code, where this crate knows one.
///
/// The table is a convenience for diagnostics and makes no claim to be
/// complete: the driver may return codes that it does not list.
pub open spec fn status_name_spec(code: u32) -> Option<Seq<char>> {
    if code == 0 {
        Some("CUDA_SUCCESS"@)
    } else if code == 1 {
        Some("CUDA_ERROR_INVALID_VALUE"@)
    } else if code == 2 {
        Some("CUDA_ERROR_OUT_OF_MEMORY"@)
    } else if code == 3 {
        Some("CUDA_ERROR_NOT_INITIALIZED"@)
    } else if code == 4 {
        Some("CUDA_ERROR_DEINITIALIZED"@)
    } else if code == 100 {
        Some("CUDA_ERROR_NO_DEVICE"@)
    } else if code == 101 {
        Some("CUDA_ERROR_INVALID_DEVICE"@)
    } else if code == 200 {
        Some("CUDA_ERROR_INVALID_IMAGE"@)
    } else if code == 201 {
        Some("CUDA_ERROR_INVALID_CONTEXT"@)
    } else if code == 209 {
        Some("CUDA_ERROR_NO_BINARY_FOR_GPU"@)
    } else if code == 218 {
        Some("CUDA_ERROR_INVALID_PTX"@)
    } else if code == 300 {
        Some("CUDA_ERROR_INVALID_SOURCE"@)
    } else if code == 301 {
        Some("CUDA_ERROR_FILE_NOT_FOUND"@)
    } else if code == 400 {
        Some("CUDA_ERROR_INVALID_HANDLE"@)
    } else if code == 500 {
        Some("CUDA_ERROR_NOT_FOUND"@)
    } else if code == 600 {
        Some("CUDA_ERROR_NOT_READY"@)
    } else if code == 700 {
        Some("CUDA_ERROR_ILLEGAL_ADDRESS"@)
    } else if code == 701 {
        Some("CUDA_ERROR_LAUNCH_OUT_OF_RESOURCES"@)
    } else if code == 702 {
        Some("CUDA_ERROR_LAUNCH_TIMEOUT"@)
    } else if code == 719 {
        Some("CUDA_ERROR_LAUNCH_FAILED"@)
    } else if code == 800 {
        Some("CUDA_ERROR_NOT_PERMITTED"@)
    } else if code == 801 {
        Some("CUDA_ERROR_NOT_SUPPORTED"@)
    } else if code == 999 {
        Some("CUDA_ERROR_UNKNOWN"@)
    } else {
        None
    }
}

/// The driver's name for a status code, where this crate knows one.
pub fn status_name(code: u32) -> (name: Option<&'static str>)
    ensures
        match name {
            Some(s) => status_name_spec(code) == Some(s@),
            None => status_name_spec(code) is None,
        },
{
    if code == 0 {
        Some("CUDA_SUCCESS")
    } else if code == 1 {
        Some("CUDA_ERROR_INVALID_VALUE")
    } else if code == 2 {
        Some("CUDA_ERROR_OUT_OF_MEMORY")
    } else if code == 3 {
        Some("CUDA_ERROR_NOT_INITIALIZED")
    } else if code == 4 {
        Some("CUDA_ERROR_DEINITIALIZED")
    } else if code == 100 {
        Some("CUDA_ERROR_NO_DEVICE")
    } else if code == 101 {
        Some("CUDA_ERROR_INVALID_DEVICE")
    } else if code == 200 {
        Some("CUDA_ERROR_INVALID_IMAGE")
    } else if code == 201 {
        Some("CUDA_ERROR_INVALID_CONTEXT")
    } else if code == 209 {
        Some("CUDA_ERROR_NO_BINARY_FOR_GPU")
    } else if code == 218 {
        Some("CUDA_ERROR_INVALID_PTX")
    } else if code == 300 {
        Some("CUDA_ERROR_INVALID_SOURCE")
    } else if code == 301 {
        Some("CUDA_ERROR_FILE_NOT_FOUND")
    } else if code == 400 {
        Some("CUDA_ERROR_INVALID_HANDLE")
    } else if code == 500 {
        Some("CUDA_ERROR_NOT_FOUND")
    } else if code == 600 {
        Some("CUDA_ERROR_NOT_READY")
    } else if code == 700 {
        Some("CUDA_ERROR_ILLEGAL_ADDRESS")
    } else if code == 701 {
        Some("CUDA_ERROR_LAUNCH_OUT_OF_RESOURCES")
    } else if code == 702 {
        Some("CUDA_ERROR_LAUNCH_TIMEOUT")
    } else if code == 719 {
        Some("CUDA_ERROR_LAUNCH_FAILED")
    } else if code == 800 {
        Some("CUDA_ERROR_NOT_PERMITTED")
    } else if code == 801 {
        Some("CUDA_ERROR_NOT_SUPPORTED")
    } else if code == 999 {
        Some("CUDA_ERROR_UNKNOWN")
    } else {
        None
    }
}

/// The line that describes a status code: the code itself in decimal, and
/// in front of it the driver's name for it where there is one.
pub open spec fn status_text(code: u32) -> Seq<char> {
    match status_name_spec(code) {
        Some(name) => "CUDA error: "@ + name + "("@ + decimal_digits(code as nat) + ")"@,
        None => "CUDA error: "@ + decimal_digits(code as nat),
    }
}

impl cudaError_enum {
    /// The classification of a status code: success or a native failure.
    pub open spec fn check_spec(self) -> Result<(), CudaError> {
        if self.0 == CUDA_SUCCESS {
            Ok(())
        } else {
            Err(CudaError::NativeStatus(self))
        }
    }

    /// Turns a status code into a result: success for `CUDA_SUCCESS`, and
    /// for every other value an error that carries the code unchanged.
    pub fn check(self) -> (r: Result<(), CudaError>)
        ensures
            r == self.check_spec(),
            r is Ok <==> self.0 == CUDA_SUCCESS,
            r matches Err(e) ==> e == CudaError::NativeStatus(self) && e.wf(),
    {
        if self.0 == CUDA_SUCCESS {
            Ok(())
        } else {
            Err(CudaError::NativeStatus(self))
        }
    }

    /// The driver's name for this code, where this crate knows one.
    pub fn name(self) -> (name: Option<&'static str>)
        ensures
            match name {
                Some(s) => status_name_spec(self.0) == Some(s@),
                None => status_name_spec(self.0) is None,
            },
    {
        status_name(self.0)
    }
}

impl CudaError {
    /// A `NativeStatus` never carries the success code.
    pub open spec fn wf(&self) -> bool {
        self matches CudaError::NativeStatus(code) ==> code.0 != CUDA_SUCCESS
    }

    /// What `message` writes: for a native status its line, for a load
    /// failure the loader's own words and nothing else.
    pub open spec fn rendered(&self) -> Seq<char> {
        match self {
            CudaError::NativeStatus(code) => status_text(code.0),
            CudaError::LoadFailure(e) => loader_report(e),
        }
    }

    /// The status code that a native failure carries.
    pub fn code(&self) -> (code: Option<cudaError_enum>)
        ensures
            match self {
                CudaError::NativeStatus(c) => code == Some(*c),
                CudaError::LoadFailure(_) => code is None,
            },
    {
        match self {
            CudaError::NativeStatus(c) => Some(*c),
            CudaError::LoadFailure(_) => None,
        }
    }

    /// Describes the error in one line for a diagnostic.
    pub fn message(&self) -> (s: String)
        ensures
            s@ == self.rendered(),
    {
        match self {
            CudaError::NativeStatus(code) => {
                let mut s = String::from_str("CUDA error: ");
                match status_name(code.0) {
                    Some(name) => {
                        s.append(name);
                        s.append("(");
                        s.append(decimal(code.0).as_str());
                        s.append(")");
                    },
                    None => {
                        s.append(decimal(code.0).as_str());
                    },
                }
                s
            },
            CudaError::LoadFailure(e) => loader_text(e),
        }
    }
}

impl From<libloading::Error> for CudaError {
    /// A failure of the loader as an error of this crate.
    fn from(e: libloading::Error) -> (r: CudaError) {
        CudaError::LoadFailure(e)
    }
}

impl vstd::std_specs::convert::FromSpecImpl<libloading::Error> for CudaError {
    open spec fn obeys_from_spec() -> bool {
        true
    }

    open spec fn from_spec(e: libloading::Error) -> CudaError {
        CudaError::LoadFailure(e)
    }
}

/// The line for a status code shows the code: its decimal digits stand in
/// the text, whether or not the code has a name.
pub proof fn lemma_status_text_shows_code(code: u32)
    ensures
        occurs_in(decimal_digits(code as nat), status_text(code)),
{
    let digits = decimal_digits(code as nat);
    match status_name_spec(code) {
        Some(name) => {
            lemma_occurs_between("CUDA error: "@ + name + "("@, digits, ")"@);
        },
        None => {
            lemma_occurs_between("CUDA error: "@, digits, Seq::empty());
            assert("CUDA error: "@ + digits + Seq::<char>::empty() =~= status_text(code));
        },
    }
}

/// An error's message shows the status code that the error carries: the
/// decimal digits of the code stand in the text.
pub proof fn lemma_message_shows_code(e: CudaError)
    ensures
        e matches CudaError::NativeStatus(code) ==> occurs_in(
            decimal_digits(code.0 as nat),
            e.rendered(),
        ),
{
    if let CudaError::NativeStatus(code) = e {
        lemma_status_text_shows_code(code.0);
    }
}

} // verus!
