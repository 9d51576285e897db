use vstd::prelude::*;
use crate::json::{nested_object_id_is, nested_object_id_equals, JsonObject};

verus! {

/// Whether a feature, by its properties, is a building edge ("Gebäudekante"):
/// its `properties` member is an object whose `objectId` is that text.
pub fn is_gebaeudekante(properties: &Option<JsonObject>) -> (r: bool)
    ensures
        r == nested_object_id_is(*properties, "Gebäudekante"@),
{
    nested_object_id_equals(properties, "Gebäudekante")
}

/// How a feature's line string is turned into extension lines.
#[derive(PartialEq, Eq, Structural, Debug, Clone, Copy)]
pub enum LineTreatment {
    /// Not processed: not a line string, a building edge, or fewer than two points.
    Skip,
    /// A line of two points: lines at its start and at its end.
    Simple,
    /// A line of more points: lines at each vertex, bends detected.
    MultiSegment,
}

pub open spec fn spec_line_treatment(is_line_string: bool, properties: Option<JsonObject>, num_points: usize) -> LineTreatment {
    if !is_line_string || nested_object_id_is(properties, "Gebäudekante"@) || num_points < 2 {
        LineTreatment::Skip
    } else if num_points > 2 {
        LineTreatment::MultiSegment
    } else {
        LineTreatment::Simple
    }
}

/// Decides how a feature is processed, from whether its geometry is a line
/// string, its properties and its number of points.
pub fn line_treatment(is_line_string: bool, properties: &Option<JsonObject>, num_points: usize) -> (r: LineTreatment)
    ensures
        r == spec_line_treatment(is_line_string, *properties, num_points),
{
    if !is_line_string {
        return LineTreatment::Skip;
    }
    if is_gebaeudekante(properties) {
        return LineTreatment::Skip;
    }
    if num_points < 2 {
        LineTreatment::Skip
    } else if num_points > 2 {
        LineTreatment::MultiSegment
    } else {
        LineTreatment::Simple
    }
}

/// How a feature is treated, in terms of its inputs: a building edge is never
/// processed, whatever its number of points; neither is anything but a line
/// string, nor a line of fewer than two points; any other line of two points
/// gets lines at both ends, and of more points lines at its vertices.
pub proof fn lemma_line_treatment_by_inputs(is_line_string: bool, properties: Option<JsonObject>, num_points: usize)
    ensures
        nested_object_id_is(properties, "Gebäudekante"@) ==> spec_line_treatment(is_line_string, properties, num_points)
            == LineTreatment::Skip,
        !is_line_string ==> spec_line_treatment(is_line_string, properties, num_points) == LineTreatment::Skip,
        num_points < 2 ==> spec_line_treatment(is_line_string, properties, num_points) == LineTreatment::Skip,
        is_line_string && !nested_object_id_is(properties, "Gebäudekante"@) && num_points == 2
            ==> spec_line_treatment(is_line_string, properties, num_points) == LineTreatment::Simple,
        is_line_string && !nested_object_id_is(properties, "Gebäudekante"@) && num_points > 2
            ==> spec_line_treatment(is_line_string, properties, num_points) == LineTreatment::MultiSegment,
{
}

} // verus!
