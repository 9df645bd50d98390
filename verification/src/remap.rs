//! The version-keyed remap schema: the text of `<remap-dir>/<version>.csv`
//! is a two-column table pairing each original column name with its
//! canonical rename; the loader returns the two order-preserving lists.

use crate::table::find_col;
use crate::table::get_version;
use crate::table::Table;
use crate::text::split_on;
use crate::text::split_string;
use crate::text::str_views;
use crate::SplitError;
use vstd::prelude::*;
use vstd::string::*;

verus! {

/// Equal-length, order-preserving rename lists: `ori_key[i]` is renamed to
/// `new_key[i]`, and together they are the exhaustive projection schema.
pub struct RemapSchema {
    pub ori_key: Vec<String>,
    pub new_key: Vec<String>,
}

impl RemapSchema {
    pub open spec fn wf(&self) -> bool {
        self.ori_key@.len() == self.new_key@.len()
    }
}

/// The data lines of the remap table: every line after the leading header
/// line, ignoring the one empty line a trailing newline leaves behind.
pub open spec fn remap_data_lines(text: Seq<char>) -> Seq<Seq<char>> {
    let lines = split_on(text, '\n');
    let trimmed = if lines.len() > 0 && lines.last().len() == 0 {
        lines.drop_last()
    } else {
        lines
    };
    if trimmed.len() >= 1 {
        trimmed.subrange(1, trimmed.len() as int)
    } else {
        Seq::empty()
    }
}

/// A well-formed data line holds exactly two comma-separated fields.
pub open spec fn remap_line_ok(line: Seq<char>) -> bool {
    split_on(line, ',').len() == 2
}

/// The whole table is well-formed when every data line is.
pub open spec fn remap_ok(text: Seq<char>) -> bool {
    forall|i: int|
        0 <= i < remap_data_lines(text).len() ==> remap_line_ok(
            #[trigger] remap_data_lines(text)[i],
        )
}

/// The original column names, in order.
pub open spec fn remap_ori(text: Seq<char>) -> Seq<Seq<char>> {
    remap_data_lines(text).map_values(|l: Seq<char>| split_on(l, ',')[0])
}

/// The canonical column names, in order.
pub open spec fn remap_new(text: Seq<char>) -> Seq<Seq<char>> {
    remap_data_lines(text).map_values(|l: Seq<char>| split_on(l, ',')[1])
}

/// Parse the text of a remap table.  Any line that does not hold exactly two
/// comma-separated fields makes the whole table unreadable.
pub fn parse_remap(text: &str) -> (r: Result<RemapSchema, SplitError>)
    ensures
        match r {
            Ok(schema) => remap_ok(text@) && schema.wf() && str_views(schema.ori_key@)
                == remap_ori(text@) && str_views(schema.new_key@) == remap_new(text@),
            Err(e) => e is CsvParse && !remap_ok(text@),
        },
{
    let lines = split_string(text, '\n');
    let mut end = lines.len();
    proof {
        assert(str_views(lines@).len() == lines@.len());
    }
    if end > 0 && lines[end - 1].unicode_len() == 0 {
        end -= 1;
    }
    let ghost data = remap_data_lines(text@);
    proof {
        assert(str_views(lines@) =~~= split_on(text@, '\n'));
        if end < lines@.len() {
            assert(split_on(text@, '\n').last() == lines@[end as int]@);
            assert(split_on(text@, '\n').drop_last() =~~= str_views(lines@).subrange(
                0,
                end as int,
            ));
        }
    }
    let data_cnt: usize = if end == 0 {
        0
    } else {
        end - 1
    };
    proof {
        assert(data.len() == data_cnt);
        assert(forall|j: int| 0 <= j < data.len() ==> #[trigger] data[j] == lines@[j + 1]@);
    }
    let mut ori: Vec<String> = Vec::new();
    let mut new: Vec<String> = Vec::new();
    let mut j: usize = 0;
    while j < data_cnt
        invariant
            j <= data_cnt,
            data_cnt < lines@.len() || data_cnt == 0,
            data_cnt == data.len(),
            data == remap_data_lines(text@),
            forall|k: int| 0 <= k < data.len() ==> #[trigger] data[k] == lines@[k + 1]@,
            ori@.len() == j,
            new@.len() == j,
            forall|k: int| 0 <= k < j ==> remap_line_ok(#[trigger] data[k]),
            forall|k: int| 0 <= k < j ==> (#[trigger] ori@[k])@ == split_on(data[k], ',')[0],
            forall|k: int| 0 <= k < j ==> (#[trigger] new@[k])@ == split_on(data[k], ',')[1],
        decreases data_cnt - j,
    {
        let line = &lines[j + 1];
        let fields = split_string(line.as_str(), ',');
        proof {
            assert(str_views(fields@) =~~= split_on(line@, ','));
            assert(str_views(fields@).len() == fields@.len());
        }
        if fields.len() != 2 {
            proof {
                assert(!remap_line_ok(data[j as int]));
            }
            return Err(SplitError::CsvParse);
        }
        proof {
            assert(fields@[0]@ == split_on(data[j as int], ',')[0]);
            assert(fields@[1]@ == split_on(data[j as int], ',')[1]);
        }
        ori.push(fields[0].clone());
        new.push(fields[1].clone());
        j += 1;
    }
    proof {
        assert(str_views(ori@) =~~= remap_ori(text@));
        assert(str_views(new@) =~~= remap_new(text@));
    }
    Ok(RemapSchema { ori_key: ori, new_key: new })
}

/// The version-to-remap resolver: read the `exported with version` cell of
/// the metadata header and compose the name of the remap table to look up
/// under the remap directory.  A header without that cell fails with
/// `SchemaMismatch` naming it.
pub fn resolve_remap_name(header: &Table) -> (r: Result<String, SplitError>)
    ensures
        ({
            let f = find_col(header.cols@, "exported with version"@);
            match r {
                Ok(name) => f < header.cols@.len() && header.cols@[f].cells@.len() > 0 && name@
                    == header.cols@[f].cells@[0]@ + ".csv"@,
                Err(e) => (f == header.cols@.len() || header.cols@[f].cells@.len() == 0) && (
                e matches SplitError::SchemaMismatch(n) && n@ == "exported with version"@),
            }
        }),
{
    match get_version(header) {
        Some(version) => Ok(crate::filename::remap_file_name(version.as_str())),
        None => Err(SplitError::SchemaMismatch("exported with version".to_owned())),
    }
}

/// The remap gate: `text` is the content of `remap_dir/<version>.csv` when
/// the file could be read, `None` when it is missing or unreadable.  A
/// missing or unparsable table fails with `RemapNotFound` carrying the path
/// that was looked up, and nothing else does.
pub fn load_schema(text: Option<&String>, remap_path: &str) -> (r: Result<RemapSchema, SplitError>)
    ensures
        match r {
            Ok(schema) => {
                &&& text matches Some(t) && remap_ok(t@)
                &&& schema.wf()
                &&& text matches Some(t) ==> str_views(schema.ori_key@) == remap_ori(t@)
                    && str_views(schema.new_key@) == remap_new(t@)
            },
            Err(e) => {
                &&& e matches SplitError::RemapNotFound(p) && p@ == remap_path@
                &&& text matches Some(t) ==> !remap_ok(t@)
            },
        },
{
    match text {
        None => Err(SplitError::RemapNotFound(remap_path.to_owned())),
        Some(t) => match parse_remap(t.as_str()) {
            Ok(schema) => Ok(schema),
            Err(_) => Err(SplitError::RemapNotFound(remap_path.to_owned())),
        },
    }
}

} // verus!
