use vstd::prelude::*;
use vstd::string::StringExecFns;

verus! {

/// The printer that labels go to.
pub const PRINTER: &'static str = "QL600";

/// The driver options of every label: no trim tape, quality before speed.
pub const TRIM_TAPE_OPTION: &'static str = "BrTrimtape=OFF";

pub const PRIORITY_OPTION: &'static str = "BrPriority=BrQuality";

pub const PAGE_SIZE_PREFIX: &'static str = "PageSize=";

pub const DESTINATION_FLAG: &'static str = "-d";

pub const OPTION_FLAG: &'static str = "-o";

/// The arguments of the print command for an artifact at `path` on paper
/// `paper_name`.
pub open spec fn print_arguments_spec(paper_name: Seq<char>, path: Seq<char>) -> Seq<Seq<char>> {
    seq![
        DESTINATION_FLAG@,
        PRINTER@,
        OPTION_FLAG@,
        TRIM_TAPE_OPTION@,
        OPTION_FLAG@,
        PRIORITY_OPTION@,
        OPTION_FLAG@,
        PAGE_SIZE_PREFIX@ + paper_name,
        path,
    ]
}

/// The arguments that hand the artifact at `path` to the label printer on
/// paper `paper_name`.
pub fn print_arguments(paper_name: &str, path: &str) -> (r: Vec<String>)
    ensures
        r@.map_values(|s: String| s@) == print_arguments_spec(paper_name@, path@),
{
    let mut r: Vec<String> = Vec::new();
    r.push(DESTINATION_FLAG.to_owned());
    r.push(PRINTER.to_owned());
    r.push(OPTION_FLAG.to_owned());
    r.push(TRIM_TAPE_OPTION.to_owned());
    r.push(OPTION_FLAG.to_owned());
    r.push(PRIORITY_OPTION.to_owned());
    r.push(OPTION_FLAG.to_owned());
    r.push(PAGE_SIZE_PREFIX.to_owned().concat(paper_name));
    r.push(path.to_owned());
    assert(r@.map_values(|s: String| s@) =~= print_arguments_spec(paper_name@, path@));
    r
}

} // verus!
