//! Run configuration and the layout of the input and output paths.
use vstd::prelude::*;

use crate::constants::COBO_OF_SILICON;
use crate::text::{decimal, push_decimal, push_signed_decimal, push_zero_padded, signed_decimal, zero_pad};

verus! {

/// Paths, run range and options of a merge. Paths are kept as text.
#[derive(Debug, Clone, PartialEq, Eq)]
pub struct Config {
    pub graw_path: String,
    pub online: bool,
    pub experiment: String,
    pub merge_atttpc: bool,
    pub merge_silicon: bool,
    pub evt_path: Option<String>,
    pub hdf_path: String,
    pub copy_path: Option<String>,
    pub delete_copied: bool,
    pub channel_map_path: Option<String>,
    pub first_run_number: i32,
    pub last_run_number: i32,
    pub n_threads: i32,
}

/// `comp` appended to the path `base`, with one '/' between them.
pub open spec fn join_path(base: Seq<char>, comp: Seq<char>) -> Seq<char> {
    if base.len() == 0 || base.last() == '/' {
        base + comp
    } else {
        base + seq!['/'] + comp
    }
}

/// The run directory name of the GET DAQ: "run_" and the run number padded
/// with zeros to four characters.
pub open spec fn run_str(run_number: i32) -> Seq<char> {
    "run_"@ + zero_pad(signed_decimal(run_number as int), 4)
}

/// Appends the path component `comp` to `base` (see `join_path`).
pub fn push_path(base: &mut String, comp: &str)
    ensures
        final(base)@ == join_path(old(base)@, comp@),
{
    let n = base.as_str().unicode_len();
    if n == 0 {
        base.append(comp);
    } else {
        let last = base.as_str().get_char(n - 1);
        if last == '/' {
            base.append(comp);
        } else {
            proof {
                reveal_strlit("/");
            }
            base.append("/");
            base.append(comp);
            assert(final(base)@ =~= old(base)@ + seq!['/'] + comp@);
        }
    }
}

impl Default for Config {
    /// Paths "None", no optional paths, run 0 to 0, both detector groups
    /// merged, copies deleted, one thread.
    fn default() -> (r: Self)
        ensures
            r.graw_path@ == "None"@,
            r.hdf_path@ == "None"@,
            r.experiment@.len() == 0,
            r.online == false,
            r.merge_atttpc == true,
            r.merge_silicon == true,
            r.evt_path is None,
            r.copy_path is None,
            r.delete_copied == true,
            r.channel_map_path is None,
            r.first_run_number == 0,
            r.last_run_number == 0,
            r.n_threads == 1,
    {
        Config {
            graw_path: String::from_str("None"),
            online: false,
            experiment: String::new(),
            merge_atttpc: true,
            merge_silicon: true,
            evt_path: None,
            hdf_path: String::from_str("None"),
            copy_path: None,
            delete_copied: true,
            channel_map_path: None,
            first_run_number: 0,
            last_run_number: 0,
            n_threads: 1,
        }
    }
}

impl Config {
    /// "run_" and the run number zero-padded to four characters.
    pub fn get_run_str(&self, run_number: i32) -> (r: String)
        ensures
            r@ == run_str(run_number),
    {
        let mut s = String::from_str("run_");
        push_zero_padded(&mut s, run_number as i64, 4);
        s
    }

    /// `{graw_path}/run_{R:04}/mm{cobo}`
    pub fn get_run_directory(&self, run_number: i32, cobo: &u8) -> (r: String)
        ensures
            r@ == join_path(join_path(self.graw_path@, run_str(run_number)), "mm"@ + decimal(*cobo as nat)),
    {
        let mut p = self.graw_path.clone();
        let run = self.get_run_str(run_number);
        push_path(&mut p, run.as_str());
        let mut mm = String::from_str("mm");
        push_decimal(&mut mm, *cobo as u64);
        push_path(&mut p, mm.as_str());
        p
    }

    /// `/Network/Servers/mm{cobo}.local/Users/attpc/Data/mm{cobo}/{experiment}/run_{R:04}`
    pub fn get_online_directory(&self, run_number: i32, cobo: &u8) -> (r: String)
        ensures
            r@ == join_path(
                join_path(
                    "/Network/Servers/mm"@ + decimal(*cobo as nat) + ".local/Users/attpc/Data/mm"@
                        + decimal(*cobo as nat),
                    self.experiment@,
                ),
                run_str(run_number),
            ),
    {
        let mut p = String::from_str("/Network/Servers/mm");
        push_decimal(&mut p, *cobo as u64);
        p.append(".local/Users/attpc/Data/mm");
        push_decimal(&mut p, *cobo as u64);
        push_path(&mut p, self.experiment.as_str());
        let run = self.get_run_str(run_number);
        push_path(&mut p, run.as_str());
        p
    }

    /// `{evt_path}/run{R}`, when an evt path is set.
    pub fn get_evt_directory(&self, run_number: i32) -> (r: Option<String>)
        ensures
            match self.evt_path {
                None => r is None,
                Some(p) => r matches Some(s) && s@ == join_path(p@, "run"@ + signed_decimal(run_number as int)),
            },
    {
        match &self.evt_path {
            None => None,
            Some(p) => {
                let mut dir = p.clone();
                let mut name = String::from_str("run");
                push_signed_decimal(&mut name, run_number as i64);
                push_path(&mut dir, name.as_str());
                Some(dir)
            },
        }
    }

    /// `{hdf_path}/run_{R:04}.h5`
    pub fn get_hdf_file_name(&self, run_number: i32) -> (r: String)
        ensures
            r@ == join_path(self.hdf_path@, run_str(run_number) + ".h5"@),
    {
        let mut p = self.hdf_path.clone();
        let mut name = self.get_run_str(run_number);
        name.append(".h5");
        push_path(&mut p, name.as_str());
        p
    }

    /// `{copy_path}/run_{R}`, when a copy path is set.
    pub fn get_copy_directory(&self, run_number: i32) -> (r: Option<String>)
        ensures
            match self.copy_path {
                None => r is None,
                Some(p) => r matches Some(s) && s@ == join_path(p@, "run_"@ + signed_decimal(run_number as int)),
            },
    {
        match &self.copy_path {
            None => None,
            Some(p) => {
                let mut dir = p.clone();
                let mut name = String::from_str("run_");
                push_signed_decimal(&mut name, run_number as i64);
                push_path(&mut dir, name.as_str());
                Some(dir)
            },
        }
    }

    pub fn is_n_threads_valid(&self) -> (r: bool)
        ensures
            r == (self.n_threads >= 1),
    {
        self.n_threads >= 1
    }

    pub fn has_evt_path(&self) -> (r: bool)
        ensures
            r == self.evt_path is Some,
    {
        self.evt_path.is_some()
    }

    pub fn need_copy_files(&self) -> (r: bool)
        ensures
            r == self.copy_path is Some,
    {
        self.copy_path.is_some()
    }

    pub fn delete_copied_files(&self) -> (r: bool)
        ensures
            r == (self.copy_path is Some && self.delete_copied),
    {
        self.need_copy_files() && self.delete_copied
    }

    /// Whether the data of `cobo` is merged: pad CoBos when `merge_atttpc`,
    /// silicon CoBos when `merge_silicon`.
    pub fn merges_cobo(&self, cobo: u8) -> (r: bool)
        ensures
            r == (if cobo < COBO_OF_SILICON {
                self.merge_atttpc
            } else {
                self.merge_silicon
            }),
    {
        if cobo < COBO_OF_SILICON {
            self.merge_atttpc
        } else {
            self.merge_silicon
        }
    }
}

} // verus!
