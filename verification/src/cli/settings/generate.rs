//! The command that writes settings files with the values that hold where
//! nothing is set.

use vstd::prelude::*;

verus! {

/// Write a settings file for each of the given environments.
#[derive(Debug, Clone, PartialEq, Eq)]
pub struct GenerateSettings {
    /// The environments to write settings for.
    envs: Vec<String>,
    /// Write over a settings file that exists already.
    overwrite: bool,
}

impl GenerateSettings {
    /// The environments as given.
    pub closed spec fn spec_envs(&self) -> Seq<String> {
        self.envs@
    }

    /// Whether existing files are written over.
    pub closed spec fn spec_overwrite(&self) -> bool {
        self.overwrite
    }

    /// The command with its options.
    pub fn new(envs: Vec<String>, overwrite: bool) -> (command: GenerateSettings)
        ensures
            command.spec_envs() == envs@,
            command.spec_overwrite() == overwrite,
    {
        GenerateSettings { envs, overwrite }
    }

    /// The environments to write settings for.
    pub fn envs(&self) -> (envs: &Vec<String>)
        ensures
            envs@ == self.spec_envs(),
    {
        &self.envs
    }

    /// Whether the settings file of an environment may be written, given
    /// whether one exists already: an existing file is only written over
    /// where that was asked for.
    pub fn may_write(&self, exists: bool) -> (allowed: bool)
        ensures
            allowed == (self.spec_overwrite() || !exists),
    {
        self.overwrite || !exists
    }

    /// How many settings files the command writes, given for each
    /// environment whether its file exists already, and the place of the
    /// environment at which it stops, if it stops: the first whose file
    /// exists, unless existing files are written over.
    pub fn run(&self, existing: &Vec<bool>) -> (r: (usize, Option<usize>))
        requires
            existing@.len() == self.spec_envs().len(),
        ensures
            match r.1 {
                Some(stop) => {
                    &&& !self.spec_overwrite()
                    &&& stop < existing@.len()
                    &&& existing@[stop as int]
                    &&& forall|k: int| 0 <= k < stop ==> !existing@[k]
                    &&& r.0 == stop
                },
                None => {
                    &&& self.spec_overwrite() || forall|k: int|
                        0 <= k < existing@.len() ==> !existing@[k]
                    &&& r.0 == existing@.len()
                },
            },
    {
        let mut i: usize = 0;
        while i < existing.len()
            invariant
                i <= existing@.len(),
                self.spec_overwrite() || forall|k: int| 0 <= k < i ==> !existing@[k],
            decreases existing@.len() - i,
        {
            if !self.may_write(existing[i]) {
                return (i, Some(i));
            }
            i += 1;
        }
        (i, None)
    }
}

} // verus!
