//! The request to split images, and its validation before any file is
//! touched.

use crate::weights::{weight_defect, GridSpec, WeightError};
use vstd::prelude::*;
use vstd::string::*;

verus! {

/// Why a request is turned down. Nothing is processed once one of these is
/// found.
#[derive(Clone, Copy, Debug, PartialEq, Eq, Structural)]
pub enum ValidationError {
    /// The source path does not exist.
    SourceMissing,
    /// Neither rows nor columns were given.
    NoAxis,
    /// The row weights cannot serve as a grid spec.
    Rows(WeightError),
    /// The column weights cannot serve as a grid spec.
    Cols(WeightError),
}

/// A request that has passed validation.
#[derive(Debug)]
pub struct SplitRequest {
    /// The image, or the directory of images, to split.
    pub source: String,
    /// How the height of each image is divided.
    pub row_spec: GridSpec,
    /// How the width of each image is divided.
    pub col_spec: GridSpec,
    /// The directory that the tiles are written to.
    pub output_dir: String,
    /// Whether directories below the source are searched too.
    pub recursive: bool,
}

/// The weights of an axis as a sequence, where the axis was given.
pub open spec fn given_weights(axis: Option<Vec<u32>>) -> Option<Seq<u32>> {
    match axis {
        Some(weights) => Some(weights@),
        None => None,
    }
}

/// The weights that an axis is split by: its own, or the single weight 1
/// where it was not given, which leaves the axis whole.
pub open spec fn weights_or_whole(axis: Option<Seq<u32>>) -> Seq<u32> {
    match axis {
        Some(weights) => weights,
        None => seq![1u32],
    }
}

/// The directory that tiles go to where the request names none.
pub open spec fn default_output_dir() -> Seq<char> {
    "splixed-images"@
}

/// What is wrong with a request, if anything. The demands are taken in this
/// order and the first that is not met decides: the source must exist, an axis
/// must be given, the rows must be valid, the columns must be valid.
pub open spec fn validation_failure(
    source_exists: bool,
    rows: Option<Seq<u32>>,
    cols: Option<Seq<u32>>,
) -> Option<ValidationError> {
    if !source_exists {
        Some(ValidationError::SourceMissing)
    } else if rows is None && cols is None {
        Some(ValidationError::NoAxis)
    } else if weight_defect(weights_or_whole(rows)) is Some {
        Some(ValidationError::Rows(weight_defect(weights_or_whole(rows))->0))
    } else if weight_defect(weights_or_whole(cols)) is Some {
        Some(ValidationError::Cols(weight_defect(weights_or_whole(cols))->0))
    } else {
        None
    }
}

/// The spec of an axis: that of its weights, or of the whole axis where none
/// were given.
fn axis_spec(axis: Option<Vec<u32>>) -> (result: Result<GridSpec, WeightError>)
    ensures
        match result {
            Ok(spec) => weight_defect(weights_or_whole(given_weights(axis))) is None && spec@
                == weights_or_whole(given_weights(axis)),
            Err(e) => weight_defect(weights_or_whole(given_weights(axis))) == Some(e),
        },
{
    match axis {
        Some(weights) => GridSpec::new(weights),
        None => {
            assert(weight_defect(seq![1u32]) is None);
            Ok(GridSpec::whole())
        },
    }
}

/// Validates the arguments of a run and builds the request from them.
///
/// `source_exists` says whether the source path was found. An axis that was
/// not given is left whole; an output directory that was not given is the
/// default one.
pub fn validate_args(
    source: &str,
    source_exists: bool,
    rows: Option<Vec<u32>>,
    cols: Option<Vec<u32>>,
    output_dir: Option<&str>,
    recursive: bool,
) -> (result: Result<SplitRequest, ValidationError>)
    ensures
        match result {
            Ok(request) => {
                &&& validation_failure(source_exists, given_weights(rows), given_weights(cols))
                    is None
                &&& request.source@ == source@
                &&& request.row_spec@ == weights_or_whole(given_weights(rows))
                &&& request.col_spec@ == weights_or_whole(given_weights(cols))
                &&& request.output_dir@ == match output_dir {
                    Some(dir) => dir@,
                    None => default_output_dir(),
                }
                &&& request.recursive == recursive
            },
            Err(e) => validation_failure(source_exists, given_weights(rows), given_weights(cols))
                == Some(e),
        },
{
    if !source_exists {
        return Err(ValidationError::SourceMissing);
    }
    if rows.is_none() && cols.is_none() {
        return Err(ValidationError::NoAxis);
    }
    let row_spec = match axis_spec(rows) {
        Ok(spec) => spec,
        Err(e) => {
            return Err(ValidationError::Rows(e));
        },
    };
    let col_spec = match axis_spec(cols) {
        Ok(spec) => spec,
        Err(e) => {
            return Err(ValidationError::Cols(e));
        },
    };
    let output_dir = match output_dir {
        Some(dir) => String::from_str(dir),
        None => String::from_str("splixed-images"),
    };
    Ok(SplitRequest { source: String::from_str(source), row_spec, col_spec, output_dir, recursive })
}

impl SplitRequest {
    /// How deep the source is searched for images: the source itself and what
    /// lies directly in it, or everything below it where the request is
    /// recursive.
    pub fn max_depth(&self) -> (depth: usize)
        ensures
            depth == if self.recursive {
                usize::MAX
            } else {
                1
            },
    {
        if self.recursive {
            usize::MAX
        } else {
            1
        }
    }
}

/// The line that tells the user why the request was turned down.
pub open spec fn validation_message(error: ValidationError, source: Seq<char>) -> Seq<char> {
    match error {
        ValidationError::SourceMissing => "splix: image: The provided path '"@ + source
            + "' does not exist"@,
        ValidationError::NoAxis => "splix: At least one of '--rows', '--cols' needs to be specified"@,
        ValidationError::Rows(WeightError::Zero) => "splix: rows: All row sizes must be greater than zero"@,
        ValidationError::Rows(WeightError::Empty) => "splix: rows: At least one row size must be given"@,
        ValidationError::Cols(WeightError::Zero) => "splix: cols: All column sizes must be greater than zero"@,
        ValidationError::Cols(WeightError::Empty) => "splix: cols: At least one column size must be given"@,
    }
}

impl ValidationError {
    /// The line that tells the user why the request for `source` was turned
    /// down.
    pub fn message(&self, source: &str) -> (text: String)
        ensures
            text@ == validation_message(*self, source@),
    {
        match self {
            ValidationError::SourceMissing => {
                let mut text = String::from_str("splix: image: The provided path '");
                text.append(source);
                text.append("' does not exist");
                text
            },
            ValidationError::NoAxis => String::from_str(
                "splix: At least one of '--rows', '--cols' needs to be specified",
            ),
            ValidationError::Rows(WeightError::Zero) => String::from_str(
                "splix: rows: All row sizes must be greater than zero",
            ),
            ValidationError::Rows(WeightError::Empty) => String::from_str(
                "splix: rows: At least one row size must be given",
            ),
            ValidationError::Cols(WeightError::Zero) => String::from_str(
                "splix: cols: All column sizes must be greater than zero",
            ),
            ValidationError::Cols(WeightError::Empty) => String::from_str(
                "splix: cols: At least one column size must be given",
            ),
        }
    }
}

} // verus!
