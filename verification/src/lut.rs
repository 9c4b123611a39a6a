//! Colour tables: which paths name one, and what is checked of the file there.
use vstd::prelude::*;

use crate::error::{bad, checks, invalid, invalid_str, ApplyError, Refusal};
use crate::model::opt;
use crate::num::Num;
use crate::path::{
    absolute, extension_of_path, file_extension, goes_up, is_absolute, leads_up, starts_here,
    starts_in_place,
};
use crate::text::{
    cat2, cat3, cat4, cat5, cat6, holds_char, join, joined, lower, lowered, quote, quoted, same,
    show, shown, strs, trim, trimmed, Str,
};

verus! {

/// What kind of table is wanted.
#[derive(Clone, Copy, Debug, PartialEq, Eq, Structural)]
pub enum ExpectedLutKind {
    /// A table over three channels together.
    ThreeD,
    /// A curve for each channel.
    OneD,
}

/// How the text of a table is read.
#[derive(Clone, Copy, Debug, PartialEq, Eq, Structural)]
pub enum LutFormat {
    Cube3d,
    Cube1d,
    ThreeDl,
}

/// What was found where a table should be.
#[derive(Debug)]
pub enum LutFile {
    /// It is not known where the project lies, so nothing was looked at.
    NoProject,
    /// Nothing stands there, or it is of a format that is not read.
    Unread,
    /// It could not be read, for the given reason.
    Unreadable(String),
    /// It is no text.
    NotText,
    /// It was read and is a table, or is none for the given reason.
    Parsed(Result<(), String>),
}

/// Whether a table has one of the known extensions.
pub open spec fn lut_extension(ext: Str) -> bool {
    ext == "3dl"@ || ext == "cube"@ || ext == "dat"@ || ext == "m3d"@ || ext == "csp"@
}

/// Whether an extension is that of a format that holds three channels together.
pub open spec fn three_d_only(ext: Str) -> bool {
    ext == "3dl"@ || ext == "dat"@ || ext == "m3d"@
}

/// Whether an interpolation is known.
pub open spec fn lut_interpolation(name: Str) -> bool {
    name == "nearest"@ || name == "trilinear"@ || name == "tetrahedral"@ || name == "pyramid"@
        || name == "prism"@
}

/// Whether a trimmed path stays below the project and names a file there.
pub open spec fn inside_project(s: Str) -> bool {
    s.len() > 0 && !s.contains('\\') && !is_absolute(s) && !leads_up(s) && !starts_in_place(s)
}

/// Whether a trimmed path stays below the project and names a file there.
pub fn is_inside_project(s: &str) -> (r: bool)
    ensures
        r == inside_project(s@),
{
    s.unicode_len() > 0 && !holds_char(s, '\\') && !absolute(s) && !goes_up(s) && !starts_here(s)
}

/// The extension of a path in small letters.
pub open spec fn small_extension(s: Str) -> Option<Str> {
    match file_extension(s) {
        Some(e) => Some(lowered(e)),
        None => None,
    }
}

/// The extension of a path in small letters.
pub fn get_small_extension(s: &str) -> (r: Option<String>)
    ensures
        opt(r) == small_extension(s@),
{
    match extension_of_path(s) {
        Some(e) => Some(lower(e.as_str())),
        None => None,
    }
}

/// A text that was accepted, or a refusal.
pub open spec fn gives(r: Result<String, ApplyError>, o: Result<Str, Refusal>) -> bool {
    match r {
        Ok(s) => o == Ok::<Str, Refusal>(s@),
        Err(e) => o == Err::<Str, Refusal>(e@),
    }
}

/// The path of a table: inside the project, with a known extension.
pub open spec fn lut_path_of(index: usize, lut_path: Str) -> Result<Str, Refusal> {
    let s = trimmed(lut_path);
    if !inside_project(s) {
        Err(
            bad(
                index,
                "apply_lut: lut_path must be a non-empty project-relative path without '.', '..', absolute prefixes, or backslashes"@,
            ),
        )
    } else {
        match small_extension(s) {
            Some(e) if lut_extension(e) => Ok(s),
            _ => Err(
                bad(
                    index,
                    "apply_lut: lut_path must end in one of: 3dl, cube, dat, m3d, csp"@,
                ),
            ),
        }
    }
}

/// Checks and trims the path of a table.
pub fn normalize_lut_path(index: usize, lut_path: &str) -> (r: Result<String, ApplyError>)
    ensures
        gives(r, lut_path_of(index, lut_path@)),
{
    let s = trim(lut_path);
    if !is_inside_project(s.as_str()) {
        return Err(
            invalid_str(
                index,
                "apply_lut: lut_path must be a non-empty project-relative path without '.', '..', absolute prefixes, or backslashes",
            ),
        );
    }
    let known = match get_small_extension(s.as_str()) {
        Some(e) => same(e.as_str(), "3dl") || same(e.as_str(), "cube") || same(e.as_str(), "dat")
            || same(e.as_str(), "m3d") || same(e.as_str(), "csp"),
        None => false,
    };
    if !known {
        return Err(
            invalid_str(
                index,
                "apply_lut: lut_path must end in one of: 3dl, cube, dat, m3d, csp",
            ),
        );
    }
    Ok(s)
}

/// The path of a mask: inside the project, with one of the given extensions.
pub open spec fn mask_path_of(index: usize, mask_source: Str, extensions: Seq<Str>) -> Result<
    Str,
    Refusal,
> {
    let s = trimmed(mask_source);
    if !inside_project(s) {
        Err(
            bad(
                index,
                "set_effect: montage.color_pipeline mask_source must be a non-empty project-relative path without '.', '..', absolute prefixes, or backslashes"@,
            ),
        )
    } else {
        match small_extension(s) {
            Some(e) if extensions.contains(e) => Ok(s),
            _ => Err(
                bad(
                    index,
                    "set_effect: montage.color_pipeline mask_source must end in one of: "@
                        + joined(extensions, ", "@),
                ),
            ),
        }
    }
}

/// Checks and trims the path of a mask.
pub fn normalize_mask_path(index: usize, mask_source: &str, extensions: &Vec<String>) -> (r: Result<
    String,
    ApplyError,
>)
    ensures
        gives(r, mask_path_of(index, mask_source@, strs(extensions@))),
{
    let s = trim(mask_source);
    if !is_inside_project(s.as_str()) {
        return Err(
            invalid_str(
                index,
                "set_effect: montage.color_pipeline mask_source must be a non-empty project-relative path without '.', '..', absolute prefixes, or backslashes",
            ),
        );
    }
    let known = match get_small_extension(s.as_str()) {
        Some(e) => crate::text::holds(extensions, e.as_str()),
        None => false,
    };
    if !known {
        return Err(
            invalid(
                index,
                cat2(
                    "set_effect: montage.color_pipeline mask_source must end in one of: ",
                    join(extensions, ", ").as_str(),
                ),
            ),
        );
    }
    Ok(s)
}

/// How strongly a table is applied, if that is said: from none to full.
pub open spec fn lut_strength_of(index: usize, strength: Option<Num>) -> Result<
    Option<Num>,
    Refusal,
> {
    match strength {
        Some(v) if !v.in_unit_interval() => Err(
            bad(
                index,
                "apply_lut: strength "@ + shown(v) + " must be finite and in 0.0..=1.0"@,
            ),
        ),
        _ => Ok(strength),
    }
}

/// Checks how strongly a table is applied.
pub fn normalize_lut_strength(index: usize, strength: Option<Num>) -> (r: Result<
    Option<Num>,
    ApplyError,
>)
    ensures
        match r {
            Ok(v) => lut_strength_of(index, strength) == Ok::<Option<Num>, Refusal>(v),
            Err(e) => lut_strength_of(index, strength) == Err::<Option<Num>, Refusal>(e@),
        },
{
    if let Some(v) = strength {
        if !v.in_unit_interval() {
            return Err(
                invalid(
                    index,
                    cat3(
                        "apply_lut: strength ",
                        show(v).as_str(),
                        " must be finite and in 0.0..=1.0",
                    ),
                ),
            );
        }
    }
    Ok(strength)
}

/// How a table is interpolated, in small letters; a blank says nothing.
pub open spec fn lut_interpolation_of(index: usize, interpolation: Option<Str>) -> Result<
    Option<Str>,
    Refusal,
> {
    match interpolation {
        None => Ok(None),
        Some(given) => {
            let s = lowered(trimmed(given));
            if s.len() == 0 {
                Ok(None)
            } else if lut_interpolation(s) {
                Ok(Some(s))
            } else {
                Err(
                    bad(
                        index,
                        "apply_lut: interpolation must be one of: nearest, trilinear, tetrahedral, pyramid, prism"@,
                    ),
                )
            }
        },
    }
}

/// Checks how a table is interpolated.
pub fn normalize_lut_interpolation(index: usize, interpolation: &Option<String>) -> (r: Result<
    Option<String>,
    ApplyError,
>)
    ensures
        match r {
            Ok(s) => lut_interpolation_of(index, opt(*interpolation)) == Ok::<
                Option<Str>,
                Refusal,
            >(opt(s)),
            Err(e) => lut_interpolation_of(index, opt(*interpolation)) == Err::<
                Option<Str>,
                Refusal,
            >(e@),
        },
{
    let given = match interpolation {
        None => {
            return Ok(None);
        },
        Some(g) => g,
    };
    let s = lower(trim(given.as_str()).as_str());
    if s.as_str().unicode_len() == 0 {
        return Ok(None);
    }
    if same(s.as_str(), "nearest") || same(s.as_str(), "trilinear") || same(
        s.as_str(),
        "tetrahedral",
    ) || same(s.as_str(), "pyramid") || same(s.as_str(), "prism") {
        return Ok(Some(s));
    }
    Err(
        invalid_str(
            index,
            "apply_lut: interpolation must be one of: nearest, trilinear, tetrahedral, pyramid, prism",
        ),
    )
}

/// How the table at a path is read, where its format is one that is read.
pub open spec fn lut_format_of(lut_path: Str, expected: ExpectedLutKind) -> Option<LutFormat> {
    match (small_extension(lut_path), expected) {
        (Some(e), ExpectedLutKind::ThreeD) => if e == "cube"@ {
            Some(LutFormat::Cube3d)
        } else if e == "3dl"@ {
            Some(LutFormat::ThreeDl)
        } else {
            None
        },
        (Some(e), ExpectedLutKind::OneD) => if e == "cube"@ {
            Some(LutFormat::Cube1d)
        } else {
            None
        },
        (None, _) => None,
    }
}

/// How the table at a path is read.
pub fn lut_format(lut_path: &str, expected: ExpectedLutKind) -> (r: Option<LutFormat>)
    ensures
        r == lut_format_of(lut_path@, expected),
{
    match get_small_extension(lut_path) {
        None => None,
        Some(e) => {
            let cube = same(e.as_str(), "cube");
            let three = same(e.as_str(), "3dl");
            match expected {
                ExpectedLutKind::ThreeD => if cube {
                    Some(LutFormat::Cube3d)
                } else if three {
                    Some(LutFormat::ThreeDl)
                } else {
                    None
                },
                ExpectedLutKind::OneD => if cube {
                    Some(LutFormat::Cube1d)
                } else {
                    None
                },
            }
        },
    }
}

/// Whether what was found at a path will do: a table of the wanted kind, or a
/// file that is still to come.
pub open spec fn lut_contents_ok(
    index: usize,
    lut_path: Str,
    expected: ExpectedLutKind,
    found: LutFile,
) -> Result<(), Refusal> {
    match small_extension(lut_path) {
        _ if found is NoProject => Ok(()),
        None => Ok(()),
        Some(ext) => if expected == ExpectedLutKind::OneD && three_d_only(ext) {
            Err(
                bad(
                    index,
                    "apply_lut: "@ + quoted(lut_path) + " is a ."@ + ext
                        + " (3D-only format) but the slot expects a 1D LUT"@,
                ),
            )
        } else if lut_format_of(lut_path, expected) is None {
            Ok(())
        } else {
            match found {
                LutFile::Unreadable(e) => Err(
                    bad(index, "apply_lut: failed to read "@ + quoted(lut_path) + ": "@ + e@),
                ),
                LutFile::NotText => Err(
                    bad(index, "apply_lut: "@ + quoted(lut_path) + " is not valid UTF-8"@),
                ),
                LutFile::Parsed(Err(e)) => Err(
                    bad(
                        index,
                        "apply_lut: "@ + quoted(lut_path) + " is not a valid ."@ + ext + " LUT: "@
                            + e@,
                    ),
                ),
                _ => Ok(()),
            }
        },
    }
}

/// Checks what was found at the path of a table.
pub fn validate_lut_contents(
    index: usize,
    lut_path: &str,
    expected: ExpectedLutKind,
    found: &LutFile,
) -> (r: Result<(), ApplyError>)
    ensures
        checks(r, lut_contents_ok(index, lut_path@, expected, *found)),
{
    let ext = match get_small_extension(lut_path) {
        None => {
            return Ok(());
        },
        Some(e) => e,
    };
    if let LutFile::NoProject = found {
        return Ok(());
    }
    let one = match expected {
        ExpectedLutKind::OneD => true,
        ExpectedLutKind::ThreeD => false,
    };
    if one && (same(ext.as_str(), "3dl") || same(ext.as_str(), "dat") || same(
        ext.as_str(),
        "m3d",
    )) {
        return Err(
            invalid(
                index,
                cat5(
                    "apply_lut: ",
                    quote(lut_path).as_str(),
                    " is a .",
                    ext.as_str(),
                    " (3D-only format) but the slot expects a 1D LUT",
                ),
            ),
        );
    }
    if lut_format(lut_path, expected).is_none() {
        return Ok(());
    }
    match found {
        LutFile::Unreadable(e) => Err(
            invalid(
                index,
                cat4("apply_lut: failed to read ", quote(lut_path).as_str(), ": ", e.as_str()),
            ),
        ),
        LutFile::NotText => Err(
            invalid(
                index,
                cat3("apply_lut: ", quote(lut_path).as_str(), " is not valid UTF-8"),
            ),
        ),
        LutFile::Parsed(Err(e)) => Err(
            invalid(
                index,
                cat6(
                    "apply_lut: ",
                    quote(lut_path).as_str(),
                    " is not a valid .",
                    ext.as_str(),
                    " LUT: ",
                    e.as_str(),
                ),
            ),
        ),
        _ => Ok(()),
    }
}

} // verus!
