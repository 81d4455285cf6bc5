use vstd::prelude::*;

verus! {

/// Names the export files of one sweep run inside a base directory.
#[derive(Debug)]
pub struct RxGainExportWriter {
    base_dir: String,
    run_id: String,
}

impl RxGainExportWriter {
    /// The directory that holds the export files.
    pub closed spec fn spec_base_dir(&self) -> Seq<char> {
        self.base_dir@
    }

    /// The run's identifier, part of every file name.
    pub closed spec fn spec_run_id(&self) -> Seq<char> {
        self.run_id@
    }

    /// A writer for run `run_id` under `base_dir` (the directory is created
    /// by the caller).
    pub fn new(base_dir: String, run_id: String) -> (w: Self)
        ensures
            w.spec_base_dir() == base_dir@,
            w.spec_run_id() == run_id@,
    {
        RxGainExportWriter { base_dir, run_id }
    }

    /// The directory that holds the export files.
    pub fn base_dir(&self) -> (s: &str)
        ensures
            s@ == self.spec_base_dir(),
    {
        self.base_dir.as_str()
    }

    fn file_name(&self, prefix: &str, suffix: &str) -> (s: String)
        ensures
            s@ == prefix@ + self.spec_run_id() + suffix@,
    {
        let s = String::from_str(prefix);
        let s = s.concat(self.run_id.as_str());
        s.concat(suffix)
    }

    /// "rx_gain_window_<run_id>.jsonl": one JSON object per measured window.
    pub fn window_json_file_name(&self) -> (s: String)
        ensures
            s@ == "rx_gain_window_"@ + self.spec_run_id() + ".jsonl"@,
    {
        self.file_name("rx_gain_window_", ".jsonl")
    }

    /// "rx_gain_window_<run_id>.csv": one CSV row per measured window.
    pub fn window_csv_file_name(&self) -> (s: String)
        ensures
            s@ == "rx_gain_window_"@ + self.spec_run_id() + ".csv"@,
    {
        self.file_name("rx_gain_window_", ".csv")
    }

    /// "rx_gain_summary_<run_id>.json": the ranked summary as JSON.
    pub fn summary_json_file_name(&self) -> (s: String)
        ensures
            s@ == "rx_gain_summary_"@ + self.spec_run_id() + ".json"@,
    {
        self.file_name("rx_gain_summary_", ".json")
    }

    /// "rx_gain_summary_<run_id>.csv": the ranked summary as CSV.
    pub fn summary_csv_file_name(&self) -> (s: String)
        ensures
            s@ == "rx_gain_summary_"@ + self.spec_run_id() + ".csv"@,
    {
        self.file_name("rx_gain_summary_", ".csv")
    }
}

/// Gain arguments must come as at least one name-value pair.
pub open spec fn spec_gain_args_are_pairs(n: int) -> bool {
    n >= 2 && n % 2 == 0
}

/// Splits command line gain arguments into (name, value) pairs, or none when
/// they do not form at least one pair.
pub fn split_gain_pairs(args: &Vec<String>) -> (r: Option<Vec<(String, String)>>)
    ensures
        r is Some <==> spec_gain_args_are_pairs(args@.len() as int),
        r matches Some(pairs) ==> {
            &&& pairs@.len() * 2 == args@.len()
            &&& forall|i: int|
                0 <= i < pairs@.len() ==> (#[trigger] pairs@[i]).0@ == args@[2 * i]@ && pairs@[i].1@
                    == args@[2 * i + 1]@
        },
{
    let n = args.len();
    if n < 2 || n % 2 != 0 {
        return None;
    }
    let mut pairs: Vec<(String, String)> = Vec::new();
    let mut i: usize = 0;
    while i < n
        invariant
            n == args@.len(),
            n % 2 == 0,
            i <= n,
            i % 2 == 0,
            pairs@.len() * 2 == i,
            forall|j: int|
                0 <= j < pairs@.len() ==> (#[trigger] pairs@[j]).0@ == args@[2 * j]@ && pairs@[j].1@
                    == args@[2 * j + 1]@,
        decreases n - i,
    {
        let name = args[i].clone();
        let value = args[i + 1].clone();
        pairs.push((name, value));
        i += 2;
    }
    Some(pairs)
}

} // verus!
