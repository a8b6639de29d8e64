//! The inspector that relies on the kernel's packet-filter virtual machine.

use std::path::Path;
use vstd::prelude::*;

verus! {

/// An inspector bound to a network interface, or to none.
#[derive(Debug)]
pub struct EbpfInspector {
    pub interface: Option<String>,
}

/// Why an inspector could not be made.
#[derive(Debug)]
pub enum EbpfError {
    Unsupported(String),
}

impl View for EbpfError {
    type V = Seq<char>;

    open spec fn view(&self) -> Seq<char> {
        match self {
            EbpfError::Unsupported(message) => message@,
        }
    }
}

impl EbpfInspector {
    /// An inspector for `interface` where the system has support, else the
    /// error that says it has none.
    pub fn with_support(interface: Option<String>, supported: bool) -> (r: Result<Self, EbpfError>)
        ensures
            match r {
                Ok(inspector) => supported && inspector.interface == interface,
                Err(e) => !supported && e@ == "ebpf not supported on this system"@,
            },
    {
        if !supported {
            return Err(EbpfError::Unsupported("ebpf not supported on this system".to_owned()));
        }
        Ok(EbpfInspector { interface })
    }

    /// An inspector for `interface`, if the system has support at the moment
    /// of the call.
    pub fn try_new(interface: Option<String>) -> (r: Result<Self, EbpfError>)
        ensures
            match r {
                Ok(inspector) => inspector.interface == interface,
                Err(e) => e@ == "ebpf not supported on this system"@,
            },
    {
        Self::with_support(interface, Self::is_supported())
    }

    /// Whether the system has support at the moment of the call. This is
    /// `Path::exists` of the standard library on the filter file system's
    /// mount point; nothing is claimed of the answer.
    #[verifier::external_body]
    pub fn is_supported() -> bool {
        Path::new("/sys/fs/bpf").exists()
    }
}

} // verus!
