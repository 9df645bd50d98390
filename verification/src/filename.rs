//! The filename parser: the basename of the input file is a hyphen-delimited
//! token list, of which token 6 (the leg-mode) drives the selection engine.

use crate::text::split_on;
use crate::text::split_string;
use crate::text::str_views;
use crate::SplitError;
use vstd::prelude::*;
use vstd::string::*;

verus! {

/// Decode an input filename into its hyphen-separated tokens.  A name with
/// fewer than ten tokens is rejected with `ParseNameFailed`, and nothing else
/// is.
pub fn parse_name(filename: &str) -> (r: Result<Vec<String>, SplitError>)
    ensures
        match r {
            Ok(tokens) => split_on(filename@, '-').len() >= 10 && str_views(tokens@) == split_on(
                filename@,
                '-',
            ),
            Err(e) => e is ParseNameFailed && split_on(filename@, '-').len() < 10,
        },
{
    let tokens = split_string(filename, '-');
    proof {
        assert(str_views(tokens@).len() == tokens@.len());
    }
    if tokens.len() < 10 {
        Err(SplitError::ParseNameFailed)
    } else {
        Ok(tokens)
    }
}

/// Token 6 of the parsed name: the leg-mode selector.
pub fn leg_mode(tokens: &Vec<String>) -> (r: &String)
    requires
        tokens@.len() > 6,
    ensures
        *r == tokens@[6],
{
    &tokens[6]
}

/// The scratch name the output is assembled under before the final rename.
pub fn tmp_file_name(filename: &str) -> (r: String)
    ensures
        r@ == filename@ + ".tmp"@,
{
    let mut s = filename.to_owned();
    s.append(".tmp");
    s
}

/// The name of the remap table for an export version.
pub fn remap_file_name(version: &str) -> (r: String)
    ensures
        r@ == version@ + ".csv"@,
{
    let mut s = version.to_owned();
    s.append(".csv");
    s
}

} // verus!
