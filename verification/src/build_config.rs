//! Configuration describing how a guest package is built from source.

use vstd::prelude::*;

verus! {

/// A cargo package to compile into a guest program: where it lives, what
/// it is called, and whether it is built with optimizations.
pub struct CargoTest {
    project_dir: String,
    name: String,
    release: bool,
}

impl CargoTest {
    /// The directory the package lives in.
    pub closed spec fn spec_project_dir(self) -> Seq<char> {
        self.project_dir@
    }

    /// The package's name.
    pub closed spec fn spec_name(self) -> Seq<char> {
        self.name@
    }

    /// Whether the package is built with optimizations.
    pub closed spec fn spec_release(self) -> bool {
        self.release
    }

    /// A build of the package in `project_dir` under `name`; optimized
    /// builds are the default.
    pub fn new(name: String, project_dir: String) -> (r: CargoTest)
        ensures
            r.spec_name() == name@,
            r.spec_project_dir() == project_dir@,
            r.spec_release(),
    {
        CargoTest { project_dir, name, release: true }
    }

    /// The package's name.
    pub fn name(&self) -> (r: &String)
        ensures
            r@ == self.spec_name(),
    {
        &self.name
    }

    /// The directory the package lives in.
    pub fn project_dir(&self) -> (r: &String)
        ensures
            r@ == self.spec_project_dir(),
    {
        &self.project_dir
    }

    /// Whether the package is built with optimizations.
    pub fn release(&self) -> (r: bool)
        ensures
            r == self.spec_release(),
    {
        self.release
    }
}

/// The kinds of source input a guest-program build can start from.
pub enum CompilerTestInputType {
    CargoMiden(CargoTest),
}

} // verus!
