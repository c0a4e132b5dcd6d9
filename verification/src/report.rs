//! The rules of a report request that need no document to be built: which
//! requests are accepted, how a report is titled, what the file is called and
//! how large an embedded image is laid out.

use crate::dimensions::{get_image_dimensions, image_dimensions};
use crate::error::ImageError;
use crate::filename::{sanitize_filename, sanitized};
use crate::sizing::{calculate_proportional_size, proportional_size};
use crate::std_text::is_whitespace_char;
use vstd::prelude::*;
use vstd::string::StringExecFns;

verus! {

/// Width at which an embedded image is laid out: 520 pixels of 9525 units
/// each.
pub const IMAGE_WIDTH_EMU: u32 = 520 * 9525;

/// Why a request for a report is refused before anything is built.
#[derive(Debug, Clone, Copy, PartialEq, Eq, Structural)]
pub enum RequestError {
    /// The project name is empty or all white space.
    BlankProjectName,
    /// The request holds no report.
    EmptyReportList,
    /// The report at this position, counted from 1, has an identifier that is
    /// empty or all white space.
    BlankReportId(usize),
}

/// The character of the decimal digit `d`.
pub open spec fn digit_char(d: nat) -> char {
    if d == 0 {
        '0'
    } else if d == 1 {
        '1'
    } else if d == 2 {
        '2'
    } else if d == 3 {
        '3'
    } else if d == 4 {
        '4'
    } else if d == 5 {
        '5'
    } else if d == 6 {
        '6'
    } else if d == 7 {
        '7'
    } else if d == 8 {
        '8'
    } else {
        '9'
    }
}

/// The decimal numeral of `n`, without leading zeros.
pub open spec fn decimal(n: nat) -> Seq<char>
    decreases n,
{
    if n < 10 {
        seq![digit_char(n)]
    } else {
        decimal(n / 10).push(digit_char(n % 10))
    }
}

/// The text of [`RequestError::message`] for each error.
pub open spec fn request_error_text(error: RequestError) -> Seq<char> {
    match error {
        RequestError::BlankProjectName => "项目名称不能为空"@,
        RequestError::EmptyReportList => "报告列表为空，无法生成文档"@,
        RequestError::BlankReportId(position) => "第"@ + decimal(position as nat)
            + "个报告的隐患编号不能为空"@,
    }
}

/// `s` is empty or holds white space only.
pub open spec fn is_blank(s: Seq<char>) -> bool {
    forall|i: int| 0 <= i < s.len() ==> is_whitespace_char(#[trigger] s[i])
}

/// What [`check_report_request`] returns for a project name and the
/// identifiers of the reports, in their order.
pub open spec fn request_check(project_name: Seq<char>, report_ids: Seq<Seq<char>>) -> Result<
    (),
    RequestError,
> {
    if is_blank(project_name) {
        Err(RequestError::BlankProjectName)
    } else if report_ids.len() == 0 {
        Err(RequestError::EmptyReportList)
    } else if first_blank(report_ids) < report_ids.len() {
        Err(RequestError::BlankReportId((first_blank(report_ids) + 1) as usize))
    } else {
        Ok(())
    }
}

/// Index of the first blank entry of `ids`; their number where none is blank.
pub open spec fn first_blank(ids: Seq<Seq<char>>) -> int
    decreases ids.len(),
{
    if ids.len() == 0 || is_blank(ids.first()) {
        0
    } else {
        1 + first_blank(ids.drop_first())
    }
}

/// The title of a report: `【type】name 【level】`.
pub open spec fn title_of(
    hazard_type: Seq<char>,
    report_name: Seq<char>,
    hazard_level: Seq<char>,
) -> Seq<char> {
    "【"@ + hazard_type + "】"@ + report_name + " 【"@ + hazard_level + "】"@
}

/// The file name proposed for the report of a project: the sanitized project
/// name and a fixed ending.
pub open spec fn file_name_of(project_name: Seq<char>) -> Seq<char> {
    sanitized(project_name) + "_风险隐患报告.docx"@
}

/// The character of a decimal digit.
fn digit(d: usize) -> (c: char)
    requires
        d < 10,
    ensures
        c == digit_char(d as nat),
{
    if d == 0 {
        '0'
    } else if d == 1 {
        '1'
    } else if d == 2 {
        '2'
    } else if d == 3 {
        '3'
    } else if d == 4 {
        '4'
    } else if d == 5 {
        '5'
    } else if d == 6 {
        '6'
    } else if d == 7 {
        '7'
    } else if d == 8 {
        '8'
    } else {
        '9'
    }
}

/// Appends the decimal numeral of `n` to `text`.
fn append_decimal(text: &mut String, n: usize)
    ensures
        final(text)@ == old(text)@ + decimal(n as nat),
    decreases n,
{
    if n >= 10 {
        append_decimal(text, n / 10);
    }
    text.push(digit(n % 10));
    proof {
        if n >= 10 {
            assert(old(text)@ + decimal((n / 10) as nat).push(digit_char((n % 10) as nat)) == (
            old(text)@ + decimal((n / 10) as nat)).push(digit_char((n % 10) as nat)));
        } else {
            assert(old(text)@ + seq![digit_char(n as nat)] == old(text)@.push(
                digit_char(n as nat),
            ));
        }
    }
}

impl RequestError {
    /// The message that tells a user why the request is refused. A position
    /// is written as a decimal numeral.
    pub fn message(&self) -> (text: String)
        ensures
            text@ == request_error_text(*self),
    {
        match self {
            RequestError::BlankProjectName => String::from_str("项目名称不能为空"),
            RequestError::EmptyReportList => String::from_str("报告列表为空，无法生成文档"),
            RequestError::BlankReportId(position) => {
                let mut text = String::from_str("第");
                append_decimal(&mut text, *position);
                text.append("个报告的隐患编号不能为空");
                text
            },
        }
    }
}

/// Whether `s` is empty or holds white space only.
pub fn is_blank_str(s: &str) -> (blank: bool)
    ensures
        blank == is_blank(s@),
{
    broadcast use vstd::string::axiom_spec_iter;

    for c in it: s.chars()
        invariant
            it.seq() == s@,
            forall|i: int| 0 <= i < it.index() ==> is_whitespace_char(#[trigger] s@[i]),
    {
        if !c.is_whitespace() {
            assert(!is_whitespace_char(s@[it.index()]));
            return false;
        }
    }
    true
}

/// Decides whether a report can be generated for `project_name` from reports
/// with the identifiers `report_ids`.
///
/// The project name must not be blank, there must be at least one report, and
/// no report may have a blank identifier. Of several faults the first in this
/// order is reported, and of several blank identifiers the first.
pub fn check_report_request(project_name: &str, report_ids: &Vec<String>) -> (result: Result<
    (),
    RequestError,
>)
    ensures
        result == request_check(project_name@, report_ids@.map_values(|id: String| id@)),
{
    let ghost ids = report_ids@.map_values(|id: String| id@);
    if is_blank_str(project_name) {
        return Err(RequestError::BlankProjectName);
    }
    if report_ids.len() == 0 {
        return Err(RequestError::EmptyReportList);
    }
    let mut index: usize = 0;
    assert(ids.subrange(0, ids.len() as int) == ids);
    while index < report_ids.len()
        invariant
            index <= report_ids@.len(),
            ids == report_ids@.map_values(|id: String| id@),
            !is_blank(project_name@),
            report_ids@.len() > 0,
            first_blank(ids) == index + first_blank(ids.subrange(index as int, ids.len() as int)),
        decreases report_ids@.len() - index,
    {
        let ghost rest = ids.subrange(index as int, ids.len() as int);
        assert(rest.first() == ids[index as int]);
        assert(ids[index as int] == report_ids@[index as int]@);
        if is_blank_str(report_ids[index].as_str()) {
            return Err(RequestError::BlankReportId(index + 1));
        }
        assert(rest.drop_first() == ids.subrange(index + 1, ids.len() as int));
        index += 1;
    }
    Ok(())
}

/// Composes the title of a report from its hazard type, its name and its
/// hazard level.
pub fn report_title(hazard_type: &str, report_name: &str, hazard_level: &str) -> (title: String)
    ensures
        title@ == title_of(hazard_type@, report_name@, hazard_level@),
{
    let mut title = String::from_str("【");
    title.append(hazard_type);
    title.append("】");
    title.append(report_name);
    title.append(" 【");
    title.append(hazard_level);
    title.append("】");
    title
}

/// Makes the file name that is proposed for the report of `project_name`.
pub fn report_file_name(project_name: &str) -> (name: String)
    ensures
        name@ == file_name_of(project_name@),
{
    let mut name = sanitize_filename(project_name);
    name.append("_风险隐患报告.docx");
    name
}

/// The size at which an image is laid out, given what reading its header
/// gave: see [`layout_size_of`].
pub open spec fn layout_size(dimensions: Result<(u32, u32), ImageError>) -> (u32, u32) {
    match dimensions {
        Ok((width, height)) => proportional_size(IMAGE_WIDTH_EMU, width, height),
        Err(_) => proportional_size(IMAGE_WIDTH_EMU, 0, 0),
    }
}

/// The size, in the unit of [`IMAGE_WIDTH_EMU`], at which an image is laid
/// out whose header gave `dimensions`: as wide as that constant, with the
/// height that the pixel dimensions ask for. Where the header could not be
/// read, whatever the error, the size is the box of 16 to 9.
pub fn layout_size_of(dimensions: Result<(u32, u32), ImageError>) -> (size: (u32, u32))
    ensures
        size == layout_size(dimensions),
        dimensions is Err ==> size == (IMAGE_WIDTH_EMU, 2786062u32),
        size.0 <= IMAGE_WIDTH_EMU,
        size.1 <= 2 * IMAGE_WIDTH_EMU,
{
    match dimensions {
        Ok((width, height)) => calculate_proportional_size(IMAGE_WIDTH_EMU, width, height),
        Err(_) => calculate_proportional_size(IMAGE_WIDTH_EMU, 0, 0),
    }
}

/// The size at which the image in `image_data` is laid out: that of
/// [`layout_size_of`] for the dimensions that [`get_image_dimensions`] reads.
pub fn image_layout_size(image_data: &[u8]) -> (size: (u32, u32))
    ensures
        size == layout_size(image_dimensions(image_data@)),
        size.0 <= IMAGE_WIDTH_EMU,
        size.1 <= 2 * IMAGE_WIDTH_EMU,
{
    layout_size_of(get_image_dimensions(image_data))
}

} // verus!
