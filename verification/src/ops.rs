//! Content stream operators: their kinds, their typed instructions, how an
//! operator and its operands become an instruction, and the text of each.
use vstd::prelude::*;

use crate::number::Number;
use crate::object::{Object, ObjectView, Name, PdfString, PdfArray, Dict, Stream, view_objects, objects_text,
    object_text, escaped_bytes, name_text, string_text, entries_text, push_escaped, push_name_text, push_string_text,
    push_object_text, push_objects_text, push_entries_text, lemma_objects_text_1, lemma_objects_text_2,
    lemma_objects_text_3, lemma_object_text_ascii, lemma_objects_text_ascii, lemma_escaped_ascii};
use crate::decimal::{is_ascii_seq, from_utf8_ascii};
use crate::operands::{NumberList, number_list};
use crate::stack::{Shape, take_operands, nums_view, take_numbers, take_all_numbers, take_named_color, take_name,
    take_name_number, take_array_number, take_name_object, take_text, take_number_number_text, take_text_array};
use crate::decimal::push_all;
use crate::number::push_number;

verus! {

/// The kinds of content stream operators.
#[derive(Clone, Copy, Debug, PartialEq, Eq, Structural)]
pub enum OpKind {
    BeginCompatibility,
    EndCompatibility,
    SaveState,
    RestoreState,
    Transform,
    LineWidth,
    LineCap,
    LineJoin,
    MiterLimit,
    DashPattern,
    RenderingIntent,
    FlatnessTolerance,
    SetGraphicsState,
    MoveTo,
    LineTo,
    CubicTo,
    CubicStartTo,
    CubicEndTo,
    ClosePath,
    RectPath,
    StrokePath,
    CloseAndStrokePath,
    FillPathNonZero,
    FillPathNonZeroCompatibility,
    FillPathEvenOdd,
    FillAndStrokeNonZero,
    FillAndStrokeEvenOdd,
    CloseFillAndStrokeNonZero,
    CloseFillAndStrokeEvenOdd,
    EndPath,
    ClipNonZero,
    ClipEvenOdd,
    ColorSpaceStroke,
    ColorSpaceNonStroke,
    StrokeColor,
    StrokeColorNamed,
    NonStrokeColor,
    NonStrokeColorNamed,
    StrokeColorDeviceGray,
    NonStrokeColorDeviceGray,
    StrokeColorDeviceRgb,
    NonStrokeColorDeviceRgb,
    StrokeColorCmyk,
    NonStrokeColorCmyk,
    Shading,
    XObject,
    InlineImage,
    CharacterSpacing,
    WordSpacing,
    HorizontalScaling,
    TextLeading,
    TextFont,
    TextRenderingMode,
    TextRise,
    BeginText,
    EndText,
    NextLine,
    NextLineAndSetLeading,
    SetTextMatrix,
    NextLineUsingLeading,
    ShowText,
    NextLineAndShowText,
    ShowTextWithParameters,
    ShowTexts,
    ColorGlyph,
    ShapeGlyph,
    MarkedContentPoint,
    MarkedContentPointWithProperties,
    BeginMarkedContent,
    BeginMarkedContentWithProperties,
    EndMarkedContent,
}

/// The spelling of each operator in a content stream.
pub open spec fn kind_operator(k: OpKind) -> Seq<u8> {
    match k {
        OpKind::BeginCompatibility => seq![0x42u8, 0x58],
        OpKind::EndCompatibility => seq![0x45u8, 0x58],
        OpKind::SaveState => seq![0x71u8],
        OpKind::RestoreState => seq![0x51u8],
        OpKind::Transform => seq![0x63u8, 0x6d],
        OpKind::LineWidth => seq![0x77u8],
        OpKind::LineCap => seq![0x4au8],
        OpKind::LineJoin => seq![0x6au8],
        OpKind::MiterLimit => seq![0x4du8],
        OpKind::DashPattern => seq![0x64u8],
        OpKind::RenderingIntent => seq![0x72u8, 0x69],
        OpKind::FlatnessTolerance => seq![0x69u8],
        OpKind::SetGraphicsState => seq![0x67u8, 0x73],
        OpKind::MoveTo => seq![0x6du8],
        OpKind::LineTo => seq![0x6cu8],
        OpKind::CubicTo => seq![0x63u8],
        OpKind::CubicStartTo => seq![0x76u8],
        OpKind::CubicEndTo => seq![0x79u8],
        OpKind::ClosePath => seq![0x68u8],
        OpKind::RectPath => seq![0x72u8, 0x65],
        OpKind::StrokePath => seq![0x53u8],
        OpKind::CloseAndStrokePath => seq![0x73u8],
        OpKind::FillPathNonZero => seq![0x66u8],
        OpKind::FillPathNonZeroCompatibility => seq![0x46u8],
        OpKind::FillPathEvenOdd => seq![0x66u8, 0x2a],
        OpKind::FillAndStrokeNonZero => seq![0x42u8],
        OpKind::FillAndStrokeEvenOdd => seq![0x42u8, 0x2a],
        OpKind::CloseFillAndStrokeNonZero => seq![0x62u8],
        OpKind::CloseFillAndStrokeEvenOdd => seq![0x62u8, 0x2a],
        OpKind::EndPath => seq![0x6eu8],
        OpKind::ClipNonZero => seq![0x57u8],
        OpKind::ClipEvenOdd => seq![0x57u8, 0x2a],
        OpKind::ColorSpaceStroke => seq![0x43u8, 0x53],
        OpKind::ColorSpaceNonStroke => seq![0x63u8, 0x73],
        OpKind::StrokeColor => seq![0x53u8, 0x43],
        OpKind::StrokeColorNamed => seq![0x53u8, 0x43, 0x4e],
        OpKind::NonStrokeColor => seq![0x73u8, 0x63],
        OpKind::NonStrokeColorNamed => seq![0x73u8, 0x63, 0x6e],
        OpKind::StrokeColorDeviceGray => seq![0x47u8],
        OpKind::NonStrokeColorDeviceGray => seq![0x67u8],
        OpKind::StrokeColorDeviceRgb => seq![0x52u8, 0x47],
        OpKind::NonStrokeColorDeviceRgb => seq![0x72u8, 0x67],
        OpKind::StrokeColorCmyk => seq![0x4bu8],
        OpKind::NonStrokeColorCmyk => seq![0x6bu8],
        OpKind::Shading => seq![0x73u8, 0x68],
        OpKind::XObject => seq![0x44u8, 0x6f],
        OpKind::InlineImage => seq![0x42u8, 0x49],
        OpKind::CharacterSpacing => seq![0x54u8, 0x63],
        OpKind::WordSpacing => seq![0x54u8, 0x77],
        OpKind::HorizontalScaling => seq![0x54u8, 0x7a],
        OpKind::TextLeading => seq![0x54u8, 0x4c],
        OpKind::TextFont => seq![0x54u8, 0x66],
        OpKind::TextRenderingMode => seq![0x54u8, 0x72],
        OpKind::TextRise => seq![0x54u8, 0x73],
        OpKind::BeginText => seq![0x42u8, 0x54],
        OpKind::EndText => seq![0x45u8, 0x54],
        OpKind::NextLine => seq![0x54u8, 0x64],
        OpKind::NextLineAndSetLeading => seq![0x54u8, 0x44],
        OpKind::SetTextMatrix => seq![0x54u8, 0x6d],
        OpKind::NextLineUsingLeading => seq![0x54u8, 0x2a],
        OpKind::ShowText => seq![0x54u8, 0x6a],
        OpKind::NextLineAndShowText => seq![0x27u8],
        OpKind::ShowTextWithParameters => seq![0x22u8],
        OpKind::ShowTexts => seq![0x54u8, 0x4a],
        OpKind::ColorGlyph => seq![0x64u8, 0x30],
        OpKind::ShapeGlyph => seq![0x64u8, 0x31],
        OpKind::MarkedContentPoint => seq![0x4du8, 0x50],
        OpKind::MarkedContentPointWithProperties => seq![0x44u8, 0x50],
        OpKind::BeginMarkedContent => seq![0x42u8, 0x4d, 0x43],
        OpKind::BeginMarkedContentWithProperties => seq![0x42u8, 0x44, 0x43],
        OpKind::EndMarkedContent => seq![0x45u8, 0x4d, 0x43],
    }
}

/// The name under which each instruction is shown.
pub open spec fn kind_label(k: OpKind) -> Seq<u8> {
    match k {
        OpKind::BeginCompatibility => seq![0x42u8, 0x65, 0x67, 0x69, 0x6e, 0x43, 0x6f, 0x6d, 0x70, 0x61, 0x74, 0x69, 0x62, 0x69, 0x6c, 0x69, 0x74, 0x79],
        OpKind::EndCompatibility => seq![0x45u8, 0x6e, 0x64, 0x43, 0x6f, 0x6d, 0x70, 0x61, 0x74, 0x69, 0x62, 0x69, 0x6c, 0x69, 0x74, 0x79],
        OpKind::SaveState => seq![0x53u8, 0x61, 0x76, 0x65, 0x53, 0x74, 0x61, 0x74, 0x65],
        OpKind::RestoreState => seq![0x52u8, 0x65, 0x73, 0x74, 0x6f, 0x72, 0x65, 0x53, 0x74, 0x61, 0x74, 0x65],
        OpKind::Transform => seq![0x54u8, 0x72, 0x61, 0x6e, 0x73, 0x66, 0x6f, 0x72, 0x6d],
        OpKind::LineWidth => seq![0x4cu8, 0x69, 0x6e, 0x65, 0x57, 0x69, 0x64, 0x74, 0x68],
        OpKind::LineCap => seq![0x4cu8, 0x69, 0x6e, 0x65, 0x43, 0x61, 0x70],
        OpKind::LineJoin => seq![0x4cu8, 0x69, 0x6e, 0x65, 0x4a, 0x6f, 0x69, 0x6e],
        OpKind::MiterLimit => seq![0x4du8, 0x69, 0x74, 0x65, 0x72, 0x4c, 0x69, 0x6d, 0x69, 0x74],
        OpKind::DashPattern => seq![0x44u8, 0x61, 0x73, 0x68, 0x50, 0x61, 0x74, 0x74, 0x65, 0x72, 0x6e],
        OpKind::RenderingIntent => seq![0x52u8, 0x65, 0x6e, 0x64, 0x65, 0x72, 0x69, 0x6e, 0x67, 0x49, 0x6e, 0x74, 0x65, 0x6e, 0x74],
        OpKind::FlatnessTolerance => seq![0x46u8, 0x6c, 0x61, 0x74, 0x6e, 0x65, 0x73, 0x73, 0x54, 0x6f, 0x6c, 0x65, 0x72, 0x61, 0x6e, 0x63, 0x65],
        OpKind::SetGraphicsState => seq![0x53u8, 0x65, 0x74, 0x47, 0x72, 0x61, 0x70, 0x68, 0x69, 0x63, 0x73, 0x53, 0x74, 0x61, 0x74, 0x65],
        OpKind::MoveTo => seq![0x4du8, 0x6f, 0x76, 0x65, 0x54, 0x6f],
        OpKind::LineTo => seq![0x4cu8, 0x69, 0x6e, 0x65, 0x54, 0x6f],
        OpKind::CubicTo => seq![0x43u8, 0x75, 0x62, 0x69, 0x63, 0x54, 0x6f],
        OpKind::CubicStartTo => seq![0x43u8, 0x75, 0x62, 0x69, 0x63, 0x53, 0x74, 0x61, 0x72, 0x74, 0x54, 0x6f],
        OpKind::CubicEndTo => seq![0x43u8, 0x75, 0x62, 0x69, 0x63, 0x45, 0x6e, 0x64, 0x54, 0x6f],
        OpKind::ClosePath => seq![0x43u8, 0x6c, 0x6f, 0x73, 0x65, 0x50, 0x61, 0x74, 0x68],
        OpKind::RectPath => seq![0x52u8, 0x65, 0x63, 0x74, 0x50, 0x61, 0x74, 0x68],
        OpKind::StrokePath => seq![0x53u8, 0x74, 0x72, 0x6f, 0x6b, 0x65, 0x50, 0x61, 0x74, 0x68],
        OpKind::CloseAndStrokePath => seq![0x43u8, 0x6c, 0x6f, 0x73, 0x65, 0x41, 0x6e, 0x64, 0x53, 0x74, 0x72, 0x6f, 0x6b, 0x65, 0x50, 0x61, 0x74, 0x68],
        OpKind::FillPathNonZero => seq![0x46u8, 0x69, 0x6c, 0x6c, 0x50, 0x61, 0x74, 0x68, 0x4e, 0x6f, 0x6e, 0x5a, 0x65, 0x72, 0x6f],
        OpKind::FillPathNonZeroCompatibility => seq![0x46u8, 0x69, 0x6c, 0x6c, 0x50, 0x61, 0x74, 0x68, 0x4e, 0x6f, 0x6e, 0x5a, 0x65, 0x72, 0x6f, 0x43, 0x6f, 0x6d, 0x70, 0x61, 0x74, 0x69, 0x62, 0x69, 0x6c, 0x69, 0x74, 0x79],
        OpKind::FillPathEvenOdd => seq![0x46u8, 0x69, 0x6c, 0x6c, 0x50, 0x61, 0x74, 0x68, 0x45, 0x76, 0x65, 0x6e, 0x4f, 0x64, 0x64],
        OpKind::FillAndStrokeNonZero => seq![0x46u8, 0x69, 0x6c, 0x6c, 0x41, 0x6e, 0x64, 0x53, 0x74, 0x72, 0x6f, 0x6b, 0x65, 0x4e, 0x6f, 0x6e, 0x5a, 0x65, 0x72, 0x6f],
        OpKind::FillAndStrokeEvenOdd => seq![0x46u8, 0x69, 0x6c, 0x6c, 0x41, 0x6e, 0x64, 0x53, 0x74, 0x72, 0x6f, 0x6b, 0x65, 0x45, 0x76, 0x65, 0x6e, 0x4f, 0x64, 0x64],
        OpKind::CloseFillAndStrokeNonZero => seq![0x43u8, 0x6c, 0x6f, 0x73, 0x65, 0x46, 0x69, 0x6c, 0x6c, 0x41, 0x6e, 0x64, 0x53, 0x74, 0x72, 0x6f, 0x6b, 0x65, 0x4e, 0x6f, 0x6e, 0x5a, 0x65, 0x72, 0x6f],
        OpKind::CloseFillAndStrokeEvenOdd => seq![0x43u8, 0x6c, 0x6f, 0x73, 0x65, 0x46, 0x69, 0x6c, 0x6c, 0x41, 0x6e, 0x64, 0x53, 0x74, 0x72, 0x6f, 0x6b, 0x65, 0x45, 0x76, 0x65, 0x6e, 0x4f, 0x64, 0x64],
        OpKind::EndPath => seq![0x45u8, 0x6e, 0x64, 0x50, 0x61, 0x74, 0x68],
        OpKind::ClipNonZero => seq![0x43u8, 0x6c, 0x69, 0x70, 0x4e, 0x6f, 0x6e, 0x5a, 0x65, 0x72, 0x6f],
        OpKind::ClipEvenOdd => seq![0x43u8, 0x6c, 0x69, 0x70, 0x45, 0x76, 0x65, 0x6e, 0x4f, 0x64, 0x64],
        OpKind::ColorSpaceStroke => seq![0x43u8, 0x6f, 0x6c, 0x6f, 0x72, 0x53, 0x70, 0x61, 0x63, 0x65, 0x53, 0x74, 0x72, 0x6f, 0x6b, 0x65],
        OpKind::ColorSpaceNonStroke => seq![0x43u8, 0x6f, 0x6c, 0x6f, 0x72, 0x53, 0x70, 0x61, 0x63, 0x65, 0x4e, 0x6f, 0x6e, 0x53, 0x74, 0x72, 0x6f, 0x6b, 0x65],
        OpKind::StrokeColor => seq![0x53u8, 0x74, 0x72, 0x6f, 0x6b, 0x65, 0x43, 0x6f, 0x6c, 0x6f, 0x72],
        OpKind::StrokeColorNamed => seq![0x53u8, 0x74, 0x72, 0x6f, 0x6b, 0x65, 0x43, 0x6f, 0x6c, 0x6f, 0x72, 0x4e, 0x61, 0x6d, 0x65, 0x64],
        OpKind::NonStrokeColor => seq![0x4eu8, 0x6f, 0x6e, 0x53, 0x74, 0x72, 0x6f, 0x6b, 0x65, 0x43, 0x6f, 0x6c, 0x6f, 0x72],
        OpKind::NonStrokeColorNamed => seq![0x4eu8, 0x6f, 0x6e, 0x53, 0x74, 0x72, 0x6f, 0x6b, 0x65, 0x43, 0x6f, 0x6c, 0x6f, 0x72, 0x4e, 0x61, 0x6d, 0x65, 0x64],
        OpKind::StrokeColorDeviceGray => seq![0x53u8, 0x74, 0x72, 0x6f, 0x6b, 0x65, 0x43, 0x6f, 0x6c, 0x6f, 0x72, 0x44, 0x65, 0x76, 0x69, 0x63, 0x65, 0x47, 0x72, 0x61, 0x79],
        OpKind::NonStrokeColorDeviceGray => seq![0x4eu8, 0x6f, 0x6e, 0x53, 0x74, 0x72, 0x6f, 0x6b, 0x65, 0x43, 0x6f, 0x6c, 0x6f, 0x72, 0x44, 0x65, 0x76, 0x69, 0x63, 0x65, 0x47, 0x72, 0x61, 0x79],
        OpKind::StrokeColorDeviceRgb => seq![0x53u8, 0x74, 0x72, 0x6f, 0x6b, 0x65, 0x43, 0x6f, 0x6c, 0x6f, 0x72, 0x44, 0x65, 0x76, 0x69, 0x63, 0x65, 0x52, 0x67, 0x62],
        OpKind::NonStrokeColorDeviceRgb => seq![0x4eu8, 0x6f, 0x6e, 0x53, 0x74, 0x72, 0x6f, 0x6b, 0x65, 0x43, 0x6f, 0x6c, 0x6f, 0x72, 0x44, 0x65, 0x76, 0x69, 0x63, 0x65, 0x52, 0x67, 0x62],
        OpKind::StrokeColorCmyk => seq![0x53u8, 0x74, 0x72, 0x6f, 0x6b, 0x65, 0x43, 0x6f, 0x6c, 0x6f, 0x72, 0x43, 0x6d, 0x79, 0x6b],
        OpKind::NonStrokeColorCmyk => seq![0x4eu8, 0x6f, 0x6e, 0x53, 0x74, 0x72, 0x6f, 0x6b, 0x65, 0x43, 0x6f, 0x6c, 0x6f, 0x72, 0x43, 0x6d, 0x79, 0x6b],
        OpKind::Shading => seq![0x53u8, 0x68, 0x61, 0x64, 0x69, 0x6e, 0x67],
        OpKind::XObject => seq![0x58u8, 0x4f, 0x62, 0x6a, 0x65, 0x63, 0x74],
        OpKind::InlineImage => seq![0x49u8, 0x6e, 0x6c, 0x69, 0x6e, 0x65, 0x49, 0x6d, 0x61, 0x67, 0x65],
        OpKind::CharacterSpacing => seq![0x43u8, 0x68, 0x61, 0x72, 0x61, 0x63, 0x74, 0x65, 0x72, 0x53, 0x70, 0x61, 0x63, 0x69, 0x6e, 0x67],
        OpKind::WordSpacing => seq![0x57u8, 0x6f, 0x72, 0x64, 0x53, 0x70, 0x61, 0x63, 0x69, 0x6e, 0x67],
        OpKind::HorizontalScaling => seq![0x48u8, 0x6f, 0x72, 0x69, 0x7a, 0x6f, 0x6e, 0x74, 0x61, 0x6c, 0x53, 0x63, 0x61, 0x6c, 0x69, 0x6e, 0x67],
        OpKind::TextLeading => seq![0x54u8, 0x65, 0x78, 0x74, 0x4c, 0x65, 0x61, 0x64, 0x69, 0x6e, 0x67],
        OpKind::TextFont => seq![0x54u8, 0x65, 0x78, 0x74, 0x46, 0x6f, 0x6e, 0x74],
        OpKind::TextRenderingMode => seq![0x54u8, 0x65, 0x78, 0x74, 0x52, 0x65, 0x6e, 0x64, 0x65, 0x72, 0x69, 0x6e, 0x67, 0x4d, 0x6f, 0x64, 0x65],
        OpKind::TextRise => seq![0x54u8, 0x65, 0x78, 0x74, 0x52, 0x69, 0x73, 0x65],
        OpKind::BeginText => seq![0x42u8, 0x65, 0x67, 0x69, 0x6e, 0x54, 0x65, 0x78, 0x74],
        OpKind::EndText => seq![0x45u8, 0x6e, 0x64, 0x54, 0x65, 0x78, 0x74],
        OpKind::NextLine => seq![0x4eu8, 0x65, 0x78, 0x74, 0x4c, 0x69, 0x6e, 0x65],
        OpKind::NextLineAndSetLeading => seq![0x4eu8, 0x65, 0x78, 0x74, 0x4c, 0x69, 0x6e, 0x65, 0x41, 0x6e, 0x64, 0x53, 0x65, 0x74, 0x4c, 0x65, 0x61, 0x64, 0x69, 0x6e, 0x67],
        OpKind::SetTextMatrix => seq![0x53u8, 0x65, 0x74, 0x54, 0x65, 0x78, 0x74, 0x4d, 0x61, 0x74, 0x72, 0x69, 0x78],
        OpKind::NextLineUsingLeading => seq![0x4eu8, 0x65, 0x78, 0x74, 0x4c, 0x69, 0x6e, 0x65, 0x55, 0x73, 0x69, 0x6e, 0x67, 0x4c, 0x65, 0x61, 0x64, 0x69, 0x6e, 0x67],
        OpKind::ShowText => seq![0x53u8, 0x68, 0x6f, 0x77, 0x54, 0x65, 0x78, 0x74],
        OpKind::NextLineAndShowText => seq![0x4eu8, 0x65, 0x78, 0x74, 0x4c, 0x69, 0x6e, 0x65, 0x41, 0x6e, 0x64, 0x53, 0x68, 0x6f, 0x77, 0x54, 0x65, 0x78, 0x74],
        OpKind::ShowTextWithParameters => seq![0x53u8, 0x68, 0x6f, 0x77, 0x54, 0x65, 0x78, 0x74, 0x57, 0x69, 0x74, 0x68, 0x50, 0x61, 0x72, 0x61, 0x6d, 0x65, 0x74, 0x65, 0x72, 0x73],
        OpKind::ShowTexts => seq![0x53u8, 0x68, 0x6f, 0x77, 0x54, 0x65, 0x78, 0x74, 0x73],
        OpKind::ColorGlyph => seq![0x43u8, 0x6f, 0x6c, 0x6f, 0x72, 0x47, 0x6c, 0x79, 0x70, 0x68],
        OpKind::ShapeGlyph => seq![0x53u8, 0x68, 0x61, 0x70, 0x65, 0x47, 0x6c, 0x79, 0x70, 0x68],
        OpKind::MarkedContentPoint => seq![0x4du8, 0x61, 0x72, 0x6b, 0x65, 0x64, 0x43, 0x6f, 0x6e, 0x74, 0x65, 0x6e, 0x74, 0x50, 0x6f, 0x69, 0x6e, 0x74],
        OpKind::MarkedContentPointWithProperties => seq![0x4du8, 0x61, 0x72, 0x6b, 0x65, 0x64, 0x43, 0x6f, 0x6e, 0x74, 0x65, 0x6e, 0x74, 0x50, 0x6f, 0x69, 0x6e, 0x74, 0x57, 0x69, 0x74, 0x68, 0x50, 0x72, 0x6f, 0x70, 0x65, 0x72, 0x74, 0x69, 0x65, 0x73],
        OpKind::BeginMarkedContent => seq![0x42u8, 0x65, 0x67, 0x69, 0x6e, 0x4d, 0x61, 0x72, 0x6b, 0x65, 0x64, 0x43, 0x6f, 0x6e, 0x74, 0x65, 0x6e, 0x74],
        OpKind::BeginMarkedContentWithProperties => seq![0x42u8, 0x65, 0x67, 0x69, 0x6e, 0x4d, 0x61, 0x72, 0x6b, 0x65, 0x64, 0x43, 0x6f, 0x6e, 0x74, 0x65, 0x6e, 0x74, 0x57, 0x69, 0x74, 0x68, 0x50, 0x72, 0x6f, 0x70, 0x65, 0x72, 0x74, 0x69, 0x65, 0x73],
        OpKind::EndMarkedContent => seq![0x45u8, 0x6e, 0x64, 0x4d, 0x61, 0x72, 0x6b, 0x65, 0x64, 0x43, 0x6f, 0x6e, 0x74, 0x65, 0x6e, 0x74],
    }
}

/// The operands each kind of operator takes.
pub open spec fn kind_shape(k: OpKind) -> Shape {
    match k {
        OpKind::BeginCompatibility => Shape::Nothing,
        OpKind::EndCompatibility => Shape::Nothing,
        OpKind::SaveState => Shape::Nothing,
        OpKind::RestoreState => Shape::Nothing,
        OpKind::Transform => Shape::Numbers(6),
        OpKind::LineWidth => Shape::Numbers(1),
        OpKind::LineCap => Shape::Numbers(1),
        OpKind::LineJoin => Shape::Numbers(1),
        OpKind::MiterLimit => Shape::Numbers(1),
        OpKind::DashPattern => Shape::ArrayNumber,
        OpKind::RenderingIntent => Shape::Name,
        OpKind::FlatnessTolerance => Shape::Numbers(1),
        OpKind::SetGraphicsState => Shape::Name,
        OpKind::MoveTo => Shape::Numbers(2),
        OpKind::LineTo => Shape::Numbers(2),
        OpKind::CubicTo => Shape::Numbers(6),
        OpKind::CubicStartTo => Shape::Numbers(4),
        OpKind::CubicEndTo => Shape::Numbers(4),
        OpKind::ClosePath => Shape::Nothing,
        OpKind::RectPath => Shape::Numbers(4),
        OpKind::StrokePath => Shape::Nothing,
        OpKind::CloseAndStrokePath => Shape::Nothing,
        OpKind::FillPathNonZero => Shape::Nothing,
        OpKind::FillPathNonZeroCompatibility => Shape::Nothing,
        OpKind::FillPathEvenOdd => Shape::Nothing,
        OpKind::FillAndStrokeNonZero => Shape::Nothing,
        OpKind::FillAndStrokeEvenOdd => Shape::Nothing,
        OpKind::CloseFillAndStrokeNonZero => Shape::Nothing,
        OpKind::CloseFillAndStrokeEvenOdd => Shape::Nothing,
        OpKind::EndPath => Shape::Nothing,
        OpKind::ClipNonZero => Shape::Nothing,
        OpKind::ClipEvenOdd => Shape::Nothing,
        OpKind::ColorSpaceStroke => Shape::Name,
        OpKind::ColorSpaceNonStroke => Shape::Name,
        OpKind::StrokeColor => Shape::AllNumbers,
        OpKind::StrokeColorNamed => Shape::NamedColor,
        OpKind::NonStrokeColor => Shape::AllNumbers,
        OpKind::NonStrokeColorNamed => Shape::NamedColor,
        OpKind::StrokeColorDeviceGray => Shape::Numbers(1),
        OpKind::NonStrokeColorDeviceGray => Shape::Numbers(1),
        OpKind::StrokeColorDeviceRgb => Shape::Numbers(3),
        OpKind::NonStrokeColorDeviceRgb => Shape::Numbers(3),
        OpKind::StrokeColorCmyk => Shape::Numbers(4),
        OpKind::NonStrokeColorCmyk => Shape::Numbers(4),
        OpKind::Shading => Shape::Name,
        OpKind::XObject => Shape::Name,
        OpKind::InlineImage => Shape::InlineImage,
        OpKind::CharacterSpacing => Shape::Numbers(1),
        OpKind::WordSpacing => Shape::Numbers(1),
        OpKind::HorizontalScaling => Shape::Numbers(1),
        OpKind::TextLeading => Shape::Numbers(1),
        OpKind::TextFont => Shape::NameNumber,
        OpKind::TextRenderingMode => Shape::Numbers(1),
        OpKind::TextRise => Shape::Numbers(1),
        OpKind::BeginText => Shape::Nothing,
        OpKind::EndText => Shape::Nothing,
        OpKind::NextLine => Shape::Numbers(2),
        OpKind::NextLineAndSetLeading => Shape::Numbers(2),
        OpKind::SetTextMatrix => Shape::Numbers(6),
        OpKind::NextLineUsingLeading => Shape::Nothing,
        OpKind::ShowText => Shape::Text,
        OpKind::NextLineAndShowText => Shape::Text,
        OpKind::ShowTextWithParameters => Shape::NumberNumberText,
        OpKind::ShowTexts => Shape::TextArray,
        OpKind::ColorGlyph => Shape::Numbers(2),
        OpKind::ShapeGlyph => Shape::Numbers(6),
        OpKind::MarkedContentPoint => Shape::Name,
        OpKind::MarkedContentPointWithProperties => Shape::NameObject,
        OpKind::BeginMarkedContent => Shape::Name,
        OpKind::BeginMarkedContentWithProperties => Shape::NameObject,
        OpKind::EndMarkedContent => Shape::Nothing,
    }
}

/// A token of at most three bytes as one number: its length, then its bytes.
pub open spec fn op_code(t: Seq<u8>) -> int {
    t.len() * 16777216 + (if t.len() > 0 { t[0] * 65536 } else { 0 }) + (if t.len() > 1 {
        t[1] * 256
    } else {
        0
    }) + (if t.len() > 2 { t[2] as int } else { 0 })
}

/// The kind of operator whose spelling has the given code.
pub open spec fn kind_of_code(c: int) -> Option<OpKind> {
    if c == 37902336 {
        Some(OpKind::BeginCompatibility)
    } else if c == 38098944 {
        Some(OpKind::EndCompatibility)
    } else if c == 24182784 {
        Some(OpKind::SaveState)
    } else if c == 22085632 {
        Some(OpKind::RestoreState)
    } else if c == 40070400 {
        Some(OpKind::Transform)
    } else if c == 24576000 {
        Some(OpKind::LineWidth)
    } else if c == 21626880 {
        Some(OpKind::LineCap)
    } else if c == 23724032 {
        Some(OpKind::LineJoin)
    } else if c == 21823488 {
        Some(OpKind::MiterLimit)
    } else if c == 23330816 {
        Some(OpKind::DashPattern)
    } else if c == 41052416 {
        Some(OpKind::RenderingIntent)
    } else if c == 23658496 {
        Some(OpKind::FlatnessTolerance)
    } else if c == 40334080 {
        Some(OpKind::SetGraphicsState)
    } else if c == 23920640 {
        Some(OpKind::MoveTo)
    } else if c == 23855104 {
        Some(OpKind::LineTo)
    } else if c == 23265280 {
        Some(OpKind::CubicTo)
    } else if c == 24510464 {
        Some(OpKind::CubicStartTo)
    } else if c == 24707072 {
        Some(OpKind::CubicEndTo)
    } else if c == 23592960 {
        Some(OpKind::ClosePath)
    } else if c == 41051392 {
        Some(OpKind::RectPath)
    } else if c == 22216704 {
        Some(OpKind::StrokePath)
    } else if c == 24313856 {
        Some(OpKind::CloseAndStrokePath)
    } else if c == 23461888 {
        Some(OpKind::FillPathNonZero)
    } else if c == 21364736 {
        Some(OpKind::FillPathNonZeroCompatibility)
    } else if c == 40249856 {
        Some(OpKind::FillPathEvenOdd)
    } else if c == 21102592 {
        Some(OpKind::FillAndStrokeNonZero)
    } else if c == 37890560 {
        Some(OpKind::FillAndStrokeEvenOdd)
    } else if c == 23199744 {
        Some(OpKind::CloseFillAndStrokeNonZero)
    } else if c == 39987712 {
        Some(OpKind::CloseFillAndStrokeEvenOdd)
    } else if c == 23986176 {
        Some(OpKind::EndPath)
    } else if c == 22478848 {
        Some(OpKind::ClipNonZero)
    } else if c == 39266816 {
        Some(OpKind::ClipEvenOdd)
    } else if c == 37966592 {
        Some(OpKind::ColorSpaceStroke)
    } else if c == 40071936 {
        Some(OpKind::ColorSpaceNonStroke)
    } else if c == 39011072 {
        Some(OpKind::StrokeColor)
    } else if c == 55788366 {
        Some(OpKind::StrokeColorNamed)
    } else if c == 41116416 {
        Some(OpKind::NonStrokeColor)
    } else if c == 57893742 {
        Some(OpKind::NonStrokeColorNamed)
    } else if c == 21430272 {
        Some(OpKind::StrokeColorDeviceGray)
    } else if c == 23527424 {
        Some(OpKind::NonStrokeColorDeviceGray)
    } else if c == 38946560 {
        Some(OpKind::StrokeColorDeviceRgb)
    } else if c == 41051904 {
        Some(OpKind::NonStrokeColorDeviceRgb)
    } else if c == 21692416 {
        Some(OpKind::StrokeColorCmyk)
    } else if c == 23789568 {
        Some(OpKind::NonStrokeColorCmyk)
    } else if c == 41117696 {
        Some(OpKind::Shading)
    } else if c == 38039296 {
        Some(OpKind::XObject)
    } else if c == 37898496 {
        Some(OpKind::InlineImage)
    } else if c == 39084800 {
        Some(OpKind::CharacterSpacing)
    } else if c == 39089920 {
        Some(OpKind::WordSpacing)
    } else if c == 39090688 {
        Some(OpKind::HorizontalScaling)
    } else if c == 39078912 {
        Some(OpKind::TextLeading)
    } else if c == 39085568 {
        Some(OpKind::TextFont)
    } else if c == 39088640 {
        Some(OpKind::TextRenderingMode)
    } else if c == 39088896 {
        Some(OpKind::TextRise)
    } else if c == 37901312 {
        Some(OpKind::BeginText)
    } else if c == 38097920 {
        Some(OpKind::EndText)
    } else if c == 39085056 {
        Some(OpKind::NextLine)
    } else if c == 39076864 {
        Some(OpKind::NextLineAndSetLeading)
    } else if c == 39087360 {
        Some(OpKind::SetTextMatrix)
    } else if c == 39070208 {
        Some(OpKind::NextLineUsingLeading)
    } else if c == 39086592 {
        Some(OpKind::ShowText)
    } else if c == 19333120 {
        Some(OpKind::NextLineAndShowText)
    } else if c == 19005440 {
        Some(OpKind::ShowTextWithParameters)
    } else if c == 39078400 {
        Some(OpKind::ShowTexts)
    } else if c == 40120320 {
        Some(OpKind::ColorGlyph)
    } else if c == 40120576 {
        Some(OpKind::ShapeGlyph)
    } else if c == 38621184 {
        Some(OpKind::MarkedContentPoint)
    } else if c == 38031360 {
        Some(OpKind::MarkedContentPointWithProperties)
    } else if c == 54676803 {
        Some(OpKind::BeginMarkedContent)
    } else if c == 54674499 {
        Some(OpKind::BeginMarkedContentWithProperties)
    } else if c == 54873411 {
        Some(OpKind::EndMarkedContent)
    } else {
        None
    }
}

/// The kind of operator that a token spells, if any.
pub open spec fn spec_op_kind(t: Seq<u8>) -> Option<OpKind> {
    if 1 <= t.len() <= 3 {
        kind_of_code(op_code(t))
    } else {
        None
    }
}

fn kind_of_code_exec(c: u32) -> (r: Option<OpKind>)
    ensures
        r == kind_of_code(c as int),
{
    if c == 37902336 {
        Some(OpKind::BeginCompatibility)
    } else if c == 38098944 {
        Some(OpKind::EndCompatibility)
    } else if c == 24182784 {
        Some(OpKind::SaveState)
    } else if c == 22085632 {
        Some(OpKind::RestoreState)
    } else if c == 40070400 {
        Some(OpKind::Transform)
    } else if c == 24576000 {
        Some(OpKind::LineWidth)
    } else if c == 21626880 {
        Some(OpKind::LineCap)
    } else if c == 23724032 {
        Some(OpKind::LineJoin)
    } else if c == 21823488 {
        Some(OpKind::MiterLimit)
    } else if c == 23330816 {
        Some(OpKind::DashPattern)
    } else if c == 41052416 {
        Some(OpKind::RenderingIntent)
    } else if c == 23658496 {
        Some(OpKind::FlatnessTolerance)
    } else if c == 40334080 {
        Some(OpKind::SetGraphicsState)
    } else if c == 23920640 {
        Some(OpKind::MoveTo)
    } else if c == 23855104 {
        Some(OpKind::LineTo)
    } else if c == 23265280 {
        Some(OpKind::CubicTo)
    } else if c == 24510464 {
        Some(OpKind::CubicStartTo)
    } else if c == 24707072 {
        Some(OpKind::CubicEndTo)
    } else if c == 23592960 {
        Some(OpKind::ClosePath)
    } else if c == 41051392 {
        Some(OpKind::RectPath)
    } else if c == 22216704 {
        Some(OpKind::StrokePath)
    } else if c == 24313856 {
        Some(OpKind::CloseAndStrokePath)
    } else if c == 23461888 {
        Some(OpKind::FillPathNonZero)
    } else if c == 21364736 {
        Some(OpKind::FillPathNonZeroCompatibility)
    } else if c == 40249856 {
        Some(OpKind::FillPathEvenOdd)
    } else if c == 21102592 {
        Some(OpKind::FillAndStrokeNonZero)
    } else if c == 37890560 {
        Some(OpKind::FillAndStrokeEvenOdd)
    } else if c == 23199744 {
        Some(OpKind::CloseFillAndStrokeNonZero)
    } else if c == 39987712 {
        Some(OpKind::CloseFillAndStrokeEvenOdd)
    } else if c == 23986176 {
        Some(OpKind::EndPath)
    } else if c == 22478848 {
        Some(OpKind::ClipNonZero)
    } else if c == 39266816 {
        Some(OpKind::ClipEvenOdd)
    } else if c == 37966592 {
        Some(OpKind::ColorSpaceStroke)
    } else if c == 40071936 {
        Some(OpKind::ColorSpaceNonStroke)
    } else if c == 39011072 {
        Some(OpKind::StrokeColor)
    } else if c == 55788366 {
        Some(OpKind::StrokeColorNamed)
    } else if c == 41116416 {
        Some(OpKind::NonStrokeColor)
    } else if c == 57893742 {
        Some(OpKind::NonStrokeColorNamed)
    } else if c == 21430272 {
        Some(OpKind::StrokeColorDeviceGray)
    } else if c == 23527424 {
        Some(OpKind::NonStrokeColorDeviceGray)
    } else if c == 38946560 {
        Some(OpKind::StrokeColorDeviceRgb)
    } else if c == 41051904 {
        Some(OpKind::NonStrokeColorDeviceRgb)
    } else if c == 21692416 {
        Some(OpKind::StrokeColorCmyk)
    } else if c == 23789568 {
        Some(OpKind::NonStrokeColorCmyk)
    } else if c == 41117696 {
        Some(OpKind::Shading)
    } else if c == 38039296 {
        Some(OpKind::XObject)
    } else if c == 37898496 {
        Some(OpKind::InlineImage)
    } else if c == 39084800 {
        Some(OpKind::CharacterSpacing)
    } else if c == 39089920 {
        Some(OpKind::WordSpacing)
    } else if c == 39090688 {
        Some(OpKind::HorizontalScaling)
    } else if c == 39078912 {
        Some(OpKind::TextLeading)
    } else if c == 39085568 {
        Some(OpKind::TextFont)
    } else if c == 39088640 {
        Some(OpKind::TextRenderingMode)
    } else if c == 39088896 {
        Some(OpKind::TextRise)
    } else if c == 37901312 {
        Some(OpKind::BeginText)
    } else if c == 38097920 {
        Some(OpKind::EndText)
    } else if c == 39085056 {
        Some(OpKind::NextLine)
    } else if c == 39076864 {
        Some(OpKind::NextLineAndSetLeading)
    } else if c == 39087360 {
        Some(OpKind::SetTextMatrix)
    } else if c == 39070208 {
        Some(OpKind::NextLineUsingLeading)
    } else if c == 39086592 {
        Some(OpKind::ShowText)
    } else if c == 19333120 {
        Some(OpKind::NextLineAndShowText)
    } else if c == 19005440 {
        Some(OpKind::ShowTextWithParameters)
    } else if c == 39078400 {
        Some(OpKind::ShowTexts)
    } else if c == 40120320 {
        Some(OpKind::ColorGlyph)
    } else if c == 40120576 {
        Some(OpKind::ShapeGlyph)
    } else if c == 38621184 {
        Some(OpKind::MarkedContentPoint)
    } else if c == 38031360 {
        Some(OpKind::MarkedContentPointWithProperties)
    } else if c == 54676803 {
        Some(OpKind::BeginMarkedContent)
    } else if c == 54674499 {
        Some(OpKind::BeginMarkedContentWithProperties)
    } else if c == 54873411 {
        Some(OpKind::EndMarkedContent)
    } else {
        None
    }
}

/// The kind of operator that the token `t` spells, if any.
pub fn op_kind(t: &[u8]) -> (r: Option<OpKind>)
    ensures
        r == spec_op_kind(t@),
{
    let n = t.len();
    if n < 1 || n > 3 {
        return None;
    }
    let mut c: u32 = (n as u32) * 16777216 + (t[0] as u32) * 65536;
    if n > 1 {
        c = c + (t[1] as u32) * 256;
    }
    if n > 2 {
        c = c + t[2] as u32;
    }
    kind_of_code_exec(c)
}

proof fn lemma_op_code_injective(a: Seq<u8>, b: Seq<u8>)
    requires
        1 <= a.len() <= 3,
        1 <= b.len() <= 3,
        op_code(a) == op_code(b),
    ensures
        a == b,
{
    let ra = op_code(a) - a.len() * 16777216;
    let rb = op_code(b) - b.len() * 16777216;
    assert(0 <= ra < 16777216);
    assert(0 <= rb < 16777216);
    assert(a.len() == b.len());
    assert(a[0] == b[0]);
    if a.len() > 1 {
        assert(a[1] == b[1]);
    }
    if a.len() > 2 {
        assert(a[2] == b[2]);
    }
    assert(a =~= b);
}

#[verifier::rlimit(60)]
proof fn lemma_kind_of_code_injective(c1: int, c2: int)
    requires
        kind_of_code(c1) is Some,
        kind_of_code(c1) == kind_of_code(c2),
    ensures
        c1 == c2,
{
}

/// Only the spelling of an operator is recognised as that operator.
pub proof fn lemma_operator_spelling_unique(t: Seq<u8>, k: OpKind)
    requires
        spec_op_kind(t) == Some(k),
    ensures
        t == kind_operator(k),
{
    lemma_operator_spelling(k);
    let o = kind_operator(k);
    assert(1 <= o.len() <= 3);
    lemma_kind_of_code_injective(op_code(t), op_code(o));
    lemma_op_code_injective(t, o);
}

/// The spelling of every operator is recognised as that operator.
pub proof fn lemma_operator_spelling(k: OpKind)
    ensures
        spec_op_kind(kind_operator(k)) == Some(k),
{
    match k {
        OpKind::BeginCompatibility => {
            assert(op_code(kind_operator(k)) == 37902336);
        },
        OpKind::EndCompatibility => {
            assert(op_code(kind_operator(k)) == 38098944);
        },
        OpKind::SaveState => {
            assert(op_code(kind_operator(k)) == 24182784);
        },
        OpKind::RestoreState => {
            assert(op_code(kind_operator(k)) == 22085632);
        },
        OpKind::Transform => {
            assert(op_code(kind_operator(k)) == 40070400);
        },
        OpKind::LineWidth => {
            assert(op_code(kind_operator(k)) == 24576000);
        },
        OpKind::LineCap => {
            assert(op_code(kind_operator(k)) == 21626880);
        },
        OpKind::LineJoin => {
            assert(op_code(kind_operator(k)) == 23724032);
        },
        OpKind::MiterLimit => {
            assert(op_code(kind_operator(k)) == 21823488);
        },
        OpKind::DashPattern => {
            assert(op_code(kind_operator(k)) == 23330816);
        },
        OpKind::RenderingIntent => {
            assert(op_code(kind_operator(k)) == 41052416);
        },
        OpKind::FlatnessTolerance => {
            assert(op_code(kind_operator(k)) == 23658496);
        },
        OpKind::SetGraphicsState => {
            assert(op_code(kind_operator(k)) == 40334080);
        },
        OpKind::MoveTo => {
            assert(op_code(kind_operator(k)) == 23920640);
        },
        OpKind::LineTo => {
            assert(op_code(kind_operator(k)) == 23855104);
        },
        OpKind::CubicTo => {
            assert(op_code(kind_operator(k)) == 23265280);
        },
        OpKind::CubicStartTo => {
            assert(op_code(kind_operator(k)) == 24510464);
        },
        OpKind::CubicEndTo => {
            assert(op_code(kind_operator(k)) == 24707072);
        },
        OpKind::ClosePath => {
            assert(op_code(kind_operator(k)) == 23592960);
        },
        OpKind::RectPath => {
            assert(op_code(kind_operator(k)) == 41051392);
        },
        OpKind::StrokePath => {
            assert(op_code(kind_operator(k)) == 22216704);
        },
        OpKind::CloseAndStrokePath => {
            assert(op_code(kind_operator(k)) == 24313856);
        },
        OpKind::FillPathNonZero => {
            assert(op_code(kind_operator(k)) == 23461888);
        },
        OpKind::FillPathNonZeroCompatibility => {
            assert(op_code(kind_operator(k)) == 21364736);
        },
        OpKind::FillPathEvenOdd => {
            assert(op_code(kind_operator(k)) == 40249856);
        },
        OpKind::FillAndStrokeNonZero => {
            assert(op_code(kind_operator(k)) == 21102592);
        },
        OpKind::FillAndStrokeEvenOdd => {
            assert(op_code(kind_operator(k)) == 37890560);
        },
        OpKind::CloseFillAndStrokeNonZero => {
            assert(op_code(kind_operator(k)) == 23199744);
        },
        OpKind::CloseFillAndStrokeEvenOdd => {
            assert(op_code(kind_operator(k)) == 39987712);
        },
        OpKind::EndPath => {
            assert(op_code(kind_operator(k)) == 23986176);
        },
        OpKind::ClipNonZero => {
            assert(op_code(kind_operator(k)) == 22478848);
        },
        OpKind::ClipEvenOdd => {
            assert(op_code(kind_operator(k)) == 39266816);
        },
        OpKind::ColorSpaceStroke => {
            assert(op_code(kind_operator(k)) == 37966592);
        },
        OpKind::ColorSpaceNonStroke => {
            assert(op_code(kind_operator(k)) == 40071936);
        },
        OpKind::StrokeColor => {
            assert(op_code(kind_operator(k)) == 39011072);
        },
        OpKind::StrokeColorNamed => {
            assert(op_code(kind_operator(k)) == 55788366);
        },
        OpKind::NonStrokeColor => {
            assert(op_code(kind_operator(k)) == 41116416);
        },
        OpKind::NonStrokeColorNamed => {
            assert(op_code(kind_operator(k)) == 57893742);
        },
        OpKind::StrokeColorDeviceGray => {
            assert(op_code(kind_operator(k)) == 21430272);
        },
        OpKind::NonStrokeColorDeviceGray => {
            assert(op_code(kind_operator(k)) == 23527424);
        },
        OpKind::StrokeColorDeviceRgb => {
            assert(op_code(kind_operator(k)) == 38946560);
        },
        OpKind::NonStrokeColorDeviceRgb => {
            assert(op_code(kind_operator(k)) == 41051904);
        },
        OpKind::StrokeColorCmyk => {
            assert(op_code(kind_operator(k)) == 21692416);
        },
        OpKind::NonStrokeColorCmyk => {
            assert(op_code(kind_operator(k)) == 23789568);
        },
        OpKind::Shading => {
            assert(op_code(kind_operator(k)) == 41117696);
        },
        OpKind::XObject => {
            assert(op_code(kind_operator(k)) == 38039296);
        },
        OpKind::InlineImage => {
            assert(op_code(kind_operator(k)) == 37898496);
        },
        OpKind::CharacterSpacing => {
            assert(op_code(kind_operator(k)) == 39084800);
        },
        OpKind::WordSpacing => {
            assert(op_code(kind_operator(k)) == 39089920);
        },
        OpKind::HorizontalScaling => {
            assert(op_code(kind_operator(k)) == 39090688);
        },
        OpKind::TextLeading => {
            assert(op_code(kind_operator(k)) == 39078912);
        },
        OpKind::TextFont => {
            assert(op_code(kind_operator(k)) == 39085568);
        },
        OpKind::TextRenderingMode => {
            assert(op_code(kind_operator(k)) == 39088640);
        },
        OpKind::TextRise => {
            assert(op_code(kind_operator(k)) == 39088896);
        },
        OpKind::BeginText => {
            assert(op_code(kind_operator(k)) == 37901312);
        },
        OpKind::EndText => {
            assert(op_code(kind_operator(k)) == 38097920);
        },
        OpKind::NextLine => {
            assert(op_code(kind_operator(k)) == 39085056);
        },
        OpKind::NextLineAndSetLeading => {
            assert(op_code(kind_operator(k)) == 39076864);
        },
        OpKind::SetTextMatrix => {
            assert(op_code(kind_operator(k)) == 39087360);
        },
        OpKind::NextLineUsingLeading => {
            assert(op_code(kind_operator(k)) == 39070208);
        },
        OpKind::ShowText => {
            assert(op_code(kind_operator(k)) == 39086592);
        },
        OpKind::NextLineAndShowText => {
            assert(op_code(kind_operator(k)) == 19333120);
        },
        OpKind::ShowTextWithParameters => {
            assert(op_code(kind_operator(k)) == 19005440);
        },
        OpKind::ShowTexts => {
            assert(op_code(kind_operator(k)) == 39078400);
        },
        OpKind::ColorGlyph => {
            assert(op_code(kind_operator(k)) == 40120320);
        },
        OpKind::ShapeGlyph => {
            assert(op_code(kind_operator(k)) == 40120576);
        },
        OpKind::MarkedContentPoint => {
            assert(op_code(kind_operator(k)) == 38621184);
        },
        OpKind::MarkedContentPointWithProperties => {
            assert(op_code(kind_operator(k)) == 38031360);
        },
        OpKind::BeginMarkedContent => {
            assert(op_code(kind_operator(k)) == 54676803);
        },
        OpKind::BeginMarkedContentWithProperties => {
            assert(op_code(kind_operator(k)) == 54674499);
        },
        OpKind::EndMarkedContent => {
            assert(op_code(kind_operator(k)) == 54873411);
        },
    }
}

/// The `BX` operator.
#[derive(Debug, PartialEq)]
pub struct BeginCompatibility;

/// The `EX` operator.
#[derive(Debug, PartialEq)]
pub struct EndCompatibility;

/// The `q` operator.
#[derive(Debug, PartialEq)]
pub struct SaveState;

/// The `Q` operator.
#[derive(Debug, PartialEq)]
pub struct RestoreState;

/// The `cm` operator.
#[derive(Debug, PartialEq)]
pub struct Transform(pub Number, pub Number, pub Number, pub Number, pub Number, pub Number);

/// The `w` operator.
#[derive(Debug, PartialEq)]
pub struct LineWidth(pub Number);

/// The `J` operator.
#[derive(Debug, PartialEq)]
pub struct LineCap(pub Number);

/// The `j` operator.
#[derive(Debug, PartialEq)]
pub struct LineJoin(pub Number);

/// The `M` operator.
#[derive(Debug, PartialEq)]
pub struct MiterLimit(pub Number);

/// The `d` operator.
#[derive(Debug, PartialEq)]
pub struct DashPattern(pub PdfArray, pub Number);

/// The `ri` operator.
#[derive(Debug, PartialEq)]
pub struct RenderingIntent(pub Name);

/// The `i` operator.
#[derive(Debug, PartialEq)]
pub struct FlatnessTolerance(pub Number);

/// The `gs` operator.
#[derive(Debug, PartialEq)]
pub struct SetGraphicsState(pub Name);

/// The `m` operator.
#[derive(Debug, PartialEq)]
pub struct MoveTo(pub Number, pub Number);

/// The `l` operator.
#[derive(Debug, PartialEq)]
pub struct LineTo(pub Number, pub Number);

/// The `c` operator.
#[derive(Debug, PartialEq)]
pub struct CubicTo(pub Number, pub Number, pub Number, pub Number, pub Number, pub Number);

/// The `v` operator.
#[derive(Debug, PartialEq)]
pub struct CubicStartTo(pub Number, pub Number, pub Number, pub Number);

/// The `y` operator.
#[derive(Debug, PartialEq)]
pub struct CubicEndTo(pub Number, pub Number, pub Number, pub Number);

/// The `h` operator.
#[derive(Debug, PartialEq)]
pub struct ClosePath;

/// The `re` operator.
#[derive(Debug, PartialEq)]
pub struct RectPath(pub Number, pub Number, pub Number, pub Number);

/// The `S` operator.
#[derive(Debug, PartialEq)]
pub struct StrokePath;

/// The `s` operator.
#[derive(Debug, PartialEq)]
pub struct CloseAndStrokePath;

/// The `f` operator.
#[derive(Debug, PartialEq)]
pub struct FillPathNonZero;

/// The `F` operator.
#[derive(Debug, PartialEq)]
pub struct FillPathNonZeroCompatibility;

/// The `f*` operator.
#[derive(Debug, PartialEq)]
pub struct FillPathEvenOdd;

/// The `B` operator.
#[derive(Debug, PartialEq)]
pub struct FillAndStrokeNonZero;

/// The `B*` operator.
#[derive(Debug, PartialEq)]
pub struct FillAndStrokeEvenOdd;

/// The `b` operator.
#[derive(Debug, PartialEq)]
pub struct CloseFillAndStrokeNonZero;

/// The `b*` operator.
#[derive(Debug, PartialEq)]
pub struct CloseFillAndStrokeEvenOdd;

/// The `n` operator.
#[derive(Debug, PartialEq)]
pub struct EndPath;

/// The `W` operator.
#[derive(Debug, PartialEq)]
pub struct ClipNonZero;

/// The `W*` operator.
#[derive(Debug, PartialEq)]
pub struct ClipEvenOdd;

/// The `CS` operator.
#[derive(Debug, PartialEq)]
pub struct ColorSpaceStroke(pub Name);

/// The `cs` operator.
#[derive(Debug, PartialEq)]
pub struct ColorSpaceNonStroke(pub Name);

/// The `SC` operator.
#[derive(Debug, PartialEq)]
pub struct StrokeColor(pub NumberList);

/// The `SCN` operator.
#[derive(Debug, PartialEq)]
pub struct StrokeColorNamed(pub NumberList, pub Option<Name>);

/// The `sc` operator.
#[derive(Debug, PartialEq)]
pub struct NonStrokeColor(pub NumberList);

/// The `scn` operator.
#[derive(Debug, PartialEq)]
pub struct NonStrokeColorNamed(pub NumberList, pub Option<Name>);

/// The `G` operator.
#[derive(Debug, PartialEq)]
pub struct StrokeColorDeviceGray(pub Number);

/// The `g` operator.
#[derive(Debug, PartialEq)]
pub struct NonStrokeColorDeviceGray(pub Number);

/// The `RG` operator.
#[derive(Debug, PartialEq)]
pub struct StrokeColorDeviceRgb(pub Number, pub Number, pub Number);

/// The `rg` operator.
#[derive(Debug, PartialEq)]
pub struct NonStrokeColorDeviceRgb(pub Number, pub Number, pub Number);

/// The `K` operator.
#[derive(Debug, PartialEq)]
pub struct StrokeColorCmyk(pub Number, pub Number, pub Number, pub Number);

/// The `k` operator.
#[derive(Debug, PartialEq)]
pub struct NonStrokeColorCmyk(pub Number, pub Number, pub Number, pub Number);

/// The `sh` operator.
#[derive(Debug, PartialEq)]
pub struct Shading(pub Name);

/// The `Do` operator.
#[derive(Debug, PartialEq)]
pub struct XObject(pub Name);

/// The `BI` operator.
#[derive(Debug, PartialEq)]
pub struct InlineImage(pub Stream);

/// The `Tc` operator.
#[derive(Debug, PartialEq)]
pub struct CharacterSpacing(pub Number);

/// The `Tw` operator.
#[derive(Debug, PartialEq)]
pub struct WordSpacing(pub Number);

/// The `Tz` operator.
#[derive(Debug, PartialEq)]
pub struct HorizontalScaling(pub Number);

/// The `TL` operator.
#[derive(Debug, PartialEq)]
pub struct TextLeading(pub Number);

/// The `Tf` operator.
#[derive(Debug, PartialEq)]
pub struct TextFont(pub Name, pub Number);

/// The `Tr` operator.
#[derive(Debug, PartialEq)]
pub struct TextRenderingMode(pub Number);

/// The `Ts` operator.
#[derive(Debug, PartialEq)]
pub struct TextRise(pub Number);

/// The `BT` operator.
#[derive(Debug, PartialEq)]
pub struct BeginText;

/// The `ET` operator.
#[derive(Debug, PartialEq)]
pub struct EndText;

/// The `Td` operator.
#[derive(Debug, PartialEq)]
pub struct NextLine(pub Number, pub Number);

/// The `TD` operator.
#[derive(Debug, PartialEq)]
pub struct NextLineAndSetLeading(pub Number, pub Number);

/// The `Tm` operator.
#[derive(Debug, PartialEq)]
pub struct SetTextMatrix(pub Number, pub Number, pub Number, pub Number, pub Number, pub Number);

/// The `T*` operator.
#[derive(Debug, PartialEq)]
pub struct NextLineUsingLeading;

/// The `Tj` operator.
#[derive(Debug, PartialEq)]
pub struct ShowText(pub PdfString);

/// The `'` operator.
#[derive(Debug, PartialEq)]
pub struct NextLineAndShowText(pub PdfString);

/// The `"` operator.
#[derive(Debug, PartialEq)]
pub struct ShowTextWithParameters(pub Number, pub Number, pub PdfString);

/// The `TJ` operator.
#[derive(Debug, PartialEq)]
pub struct ShowTexts(pub PdfArray);

/// The `d0` operator.
#[derive(Debug, PartialEq)]
pub struct ColorGlyph(pub Number, pub Number);

/// The `d1` operator.
#[derive(Debug, PartialEq)]
pub struct ShapeGlyph(pub Number, pub Number, pub Number, pub Number, pub Number, pub Number);

/// The `MP` operator.
#[derive(Debug, PartialEq)]
pub struct MarkedContentPoint(pub Name);

/// The `DP` operator.
#[derive(Debug, PartialEq)]
pub struct MarkedContentPointWithProperties(pub Name, pub Object);

/// The `BMC` operator.
#[derive(Debug, PartialEq)]
pub struct BeginMarkedContent(pub Name);

/// The `BDC` operator.
#[derive(Debug, PartialEq)]
pub struct BeginMarkedContentWithProperties(pub Name, pub Object);

/// The `EMC` operator.
#[derive(Debug, PartialEq)]
pub struct EndMarkedContent;

/// The operator of an instruction whose kind is unknown or whose operands do
/// not fit its kind.
#[derive(Debug, PartialEq)]
pub struct Operator(pub Vec<u8>);

/// A content stream instruction with typed operands.
#[derive(Debug, PartialEq)]
pub enum TypedInstruction {
    BeginCompatibility(BeginCompatibility),
    EndCompatibility(EndCompatibility),
    SaveState(SaveState),
    RestoreState(RestoreState),
    Transform(Transform),
    LineWidth(LineWidth),
    LineCap(LineCap),
    LineJoin(LineJoin),
    MiterLimit(MiterLimit),
    DashPattern(DashPattern),
    RenderingIntent(RenderingIntent),
    FlatnessTolerance(FlatnessTolerance),
    SetGraphicsState(SetGraphicsState),
    MoveTo(MoveTo),
    LineTo(LineTo),
    CubicTo(CubicTo),
    CubicStartTo(CubicStartTo),
    CubicEndTo(CubicEndTo),
    ClosePath(ClosePath),
    RectPath(RectPath),
    StrokePath(StrokePath),
    CloseAndStrokePath(CloseAndStrokePath),
    FillPathNonZero(FillPathNonZero),
    FillPathNonZeroCompatibility(FillPathNonZeroCompatibility),
    FillPathEvenOdd(FillPathEvenOdd),
    FillAndStrokeNonZero(FillAndStrokeNonZero),
    FillAndStrokeEvenOdd(FillAndStrokeEvenOdd),
    CloseFillAndStrokeNonZero(CloseFillAndStrokeNonZero),
    CloseFillAndStrokeEvenOdd(CloseFillAndStrokeEvenOdd),
    EndPath(EndPath),
    ClipNonZero(ClipNonZero),
    ClipEvenOdd(ClipEvenOdd),
    ColorSpaceStroke(ColorSpaceStroke),
    ColorSpaceNonStroke(ColorSpaceNonStroke),
    StrokeColor(StrokeColor),
    StrokeColorNamed(StrokeColorNamed),
    NonStrokeColor(NonStrokeColor),
    NonStrokeColorNamed(NonStrokeColorNamed),
    StrokeColorDeviceGray(StrokeColorDeviceGray),
    NonStrokeColorDeviceGray(NonStrokeColorDeviceGray),
    StrokeColorDeviceRgb(StrokeColorDeviceRgb),
    NonStrokeColorDeviceRgb(NonStrokeColorDeviceRgb),
    StrokeColorCmyk(StrokeColorCmyk),
    NonStrokeColorCmyk(NonStrokeColorCmyk),
    Shading(Shading),
    XObject(XObject),
    InlineImage(InlineImage),
    CharacterSpacing(CharacterSpacing),
    WordSpacing(WordSpacing),
    HorizontalScaling(HorizontalScaling),
    TextLeading(TextLeading),
    TextFont(TextFont),
    TextRenderingMode(TextRenderingMode),
    TextRise(TextRise),
    BeginText(BeginText),
    EndText(EndText),
    NextLine(NextLine),
    NextLineAndSetLeading(NextLineAndSetLeading),
    SetTextMatrix(SetTextMatrix),
    NextLineUsingLeading(NextLineUsingLeading),
    ShowText(ShowText),
    NextLineAndShowText(NextLineAndShowText),
    ShowTextWithParameters(ShowTextWithParameters),
    ShowTexts(ShowTexts),
    ColorGlyph(ColorGlyph),
    ShapeGlyph(ShapeGlyph),
    MarkedContentPoint(MarkedContentPoint),
    MarkedContentPointWithProperties(MarkedContentPointWithProperties),
    BeginMarkedContent(BeginMarkedContent),
    BeginMarkedContentWithProperties(BeginMarkedContentWithProperties),
    EndMarkedContent(EndMarkedContent),
    Fallback(Operator),
}

/// The model of an instruction: its kind and the operands it took, an inline
/// image, or an operator that was not understood.
pub enum InstructionView {
    Typed(OpKind, Seq<ObjectView>),
    InlineImage(Seq<(Seq<u8>, ObjectView)>, Seq<u8>),
    Fallback(Seq<u8>),
}

pub open spec fn name_part(n: Option<Name>) -> Seq<ObjectView> {
    match n {
        Some(x) => seq![ObjectView::Name(x.view())],
        None => Seq::empty(),
    }
}

impl TypedInstruction {
    pub open spec fn view(&self) -> InstructionView {
        match self {
            TypedInstruction::BeginCompatibility(_) => InstructionView::Typed(OpKind::BeginCompatibility, Seq::empty()),
            TypedInstruction::EndCompatibility(_) => InstructionView::Typed(OpKind::EndCompatibility, Seq::empty()),
            TypedInstruction::SaveState(_) => InstructionView::Typed(OpKind::SaveState, Seq::empty()),
            TypedInstruction::RestoreState(_) => InstructionView::Typed(OpKind::RestoreState, Seq::empty()),
            TypedInstruction::Transform(Transform(a, b, c, d, e, f)) => InstructionView::Typed(OpKind::Transform, nums_view(seq![*a, *b, *c, *d, *e, *f])),
            TypedInstruction::LineWidth(LineWidth(a)) => InstructionView::Typed(OpKind::LineWidth, nums_view(seq![*a])),
            TypedInstruction::LineCap(LineCap(a)) => InstructionView::Typed(OpKind::LineCap, nums_view(seq![*a])),
            TypedInstruction::LineJoin(LineJoin(a)) => InstructionView::Typed(OpKind::LineJoin, nums_view(seq![*a])),
            TypedInstruction::MiterLimit(MiterLimit(a)) => InstructionView::Typed(OpKind::MiterLimit, nums_view(seq![*a])),
            TypedInstruction::DashPattern(DashPattern(a, b)) => InstructionView::Typed(OpKind::DashPattern, seq![ObjectView::Array(a.view()), ObjectView::Number(*b)]),
            TypedInstruction::RenderingIntent(RenderingIntent(a)) => InstructionView::Typed(OpKind::RenderingIntent, seq![ObjectView::Name(a.view())]),
            TypedInstruction::FlatnessTolerance(FlatnessTolerance(a)) => InstructionView::Typed(OpKind::FlatnessTolerance, nums_view(seq![*a])),
            TypedInstruction::SetGraphicsState(SetGraphicsState(a)) => InstructionView::Typed(OpKind::SetGraphicsState, seq![ObjectView::Name(a.view())]),
            TypedInstruction::MoveTo(MoveTo(a, b)) => InstructionView::Typed(OpKind::MoveTo, nums_view(seq![*a, *b])),
            TypedInstruction::LineTo(LineTo(a, b)) => InstructionView::Typed(OpKind::LineTo, nums_view(seq![*a, *b])),
            TypedInstruction::CubicTo(CubicTo(a, b, c, d, e, f)) => InstructionView::Typed(OpKind::CubicTo, nums_view(seq![*a, *b, *c, *d, *e, *f])),
            TypedInstruction::CubicStartTo(CubicStartTo(a, b, c, d)) => InstructionView::Typed(OpKind::CubicStartTo, nums_view(seq![*a, *b, *c, *d])),
            TypedInstruction::CubicEndTo(CubicEndTo(a, b, c, d)) => InstructionView::Typed(OpKind::CubicEndTo, nums_view(seq![*a, *b, *c, *d])),
            TypedInstruction::ClosePath(_) => InstructionView::Typed(OpKind::ClosePath, Seq::empty()),
            TypedInstruction::RectPath(RectPath(a, b, c, d)) => InstructionView::Typed(OpKind::RectPath, nums_view(seq![*a, *b, *c, *d])),
            TypedInstruction::StrokePath(_) => InstructionView::Typed(OpKind::StrokePath, Seq::empty()),
            TypedInstruction::CloseAndStrokePath(_) => InstructionView::Typed(OpKind::CloseAndStrokePath, Seq::empty()),
            TypedInstruction::FillPathNonZero(_) => InstructionView::Typed(OpKind::FillPathNonZero, Seq::empty()),
            TypedInstruction::FillPathNonZeroCompatibility(_) => InstructionView::Typed(OpKind::FillPathNonZeroCompatibility, Seq::empty()),
            TypedInstruction::FillPathEvenOdd(_) => InstructionView::Typed(OpKind::FillPathEvenOdd, Seq::empty()),
            TypedInstruction::FillAndStrokeNonZero(_) => InstructionView::Typed(OpKind::FillAndStrokeNonZero, Seq::empty()),
            TypedInstruction::FillAndStrokeEvenOdd(_) => InstructionView::Typed(OpKind::FillAndStrokeEvenOdd, Seq::empty()),
            TypedInstruction::CloseFillAndStrokeNonZero(_) => InstructionView::Typed(OpKind::CloseFillAndStrokeNonZero, Seq::empty()),
            TypedInstruction::CloseFillAndStrokeEvenOdd(_) => InstructionView::Typed(OpKind::CloseFillAndStrokeEvenOdd, Seq::empty()),
            TypedInstruction::EndPath(_) => InstructionView::Typed(OpKind::EndPath, Seq::empty()),
            TypedInstruction::ClipNonZero(_) => InstructionView::Typed(OpKind::ClipNonZero, Seq::empty()),
            TypedInstruction::ClipEvenOdd(_) => InstructionView::Typed(OpKind::ClipEvenOdd, Seq::empty()),
            TypedInstruction::ColorSpaceStroke(ColorSpaceStroke(a)) => InstructionView::Typed(OpKind::ColorSpaceStroke, seq![ObjectView::Name(a.view())]),
            TypedInstruction::ColorSpaceNonStroke(ColorSpaceNonStroke(a)) => InstructionView::Typed(OpKind::ColorSpaceNonStroke, seq![ObjectView::Name(a.view())]),
            TypedInstruction::StrokeColor(StrokeColor(a)) => InstructionView::Typed(OpKind::StrokeColor, nums_view(number_list(*a))),
            TypedInstruction::StrokeColorNamed(StrokeColorNamed(a, b)) => InstructionView::Typed(OpKind::StrokeColorNamed, nums_view(number_list(*a)) + name_part(*b)),
            TypedInstruction::NonStrokeColor(NonStrokeColor(a)) => InstructionView::Typed(OpKind::NonStrokeColor, nums_view(number_list(*a))),
            TypedInstruction::NonStrokeColorNamed(NonStrokeColorNamed(a, b)) => InstructionView::Typed(OpKind::NonStrokeColorNamed, nums_view(number_list(*a)) + name_part(*b)),
            TypedInstruction::StrokeColorDeviceGray(StrokeColorDeviceGray(a)) => InstructionView::Typed(OpKind::StrokeColorDeviceGray, nums_view(seq![*a])),
            TypedInstruction::NonStrokeColorDeviceGray(NonStrokeColorDeviceGray(a)) => InstructionView::Typed(OpKind::NonStrokeColorDeviceGray, nums_view(seq![*a])),
            TypedInstruction::StrokeColorDeviceRgb(StrokeColorDeviceRgb(a, b, c)) => InstructionView::Typed(OpKind::StrokeColorDeviceRgb, nums_view(seq![*a, *b, *c])),
            TypedInstruction::NonStrokeColorDeviceRgb(NonStrokeColorDeviceRgb(a, b, c)) => InstructionView::Typed(OpKind::NonStrokeColorDeviceRgb, nums_view(seq![*a, *b, *c])),
            TypedInstruction::StrokeColorCmyk(StrokeColorCmyk(a, b, c, d)) => InstructionView::Typed(OpKind::StrokeColorCmyk, nums_view(seq![*a, *b, *c, *d])),
            TypedInstruction::NonStrokeColorCmyk(NonStrokeColorCmyk(a, b, c, d)) => InstructionView::Typed(OpKind::NonStrokeColorCmyk, nums_view(seq![*a, *b, *c, *d])),
            TypedInstruction::Shading(Shading(a)) => InstructionView::Typed(OpKind::Shading, seq![ObjectView::Name(a.view())]),
            TypedInstruction::XObject(XObject(a)) => InstructionView::Typed(OpKind::XObject, seq![ObjectView::Name(a.view())]),
            TypedInstruction::InlineImage(InlineImage(a)) => InstructionView::InlineImage(a.dict.view(), a.data@),
            TypedInstruction::CharacterSpacing(CharacterSpacing(a)) => InstructionView::Typed(OpKind::CharacterSpacing, nums_view(seq![*a])),
            TypedInstruction::WordSpacing(WordSpacing(a)) => InstructionView::Typed(OpKind::WordSpacing, nums_view(seq![*a])),
            TypedInstruction::HorizontalScaling(HorizontalScaling(a)) => InstructionView::Typed(OpKind::HorizontalScaling, nums_view(seq![*a])),
            TypedInstruction::TextLeading(TextLeading(a)) => InstructionView::Typed(OpKind::TextLeading, nums_view(seq![*a])),
            TypedInstruction::TextFont(TextFont(a, b)) => InstructionView::Typed(OpKind::TextFont, seq![ObjectView::Name(a.view()), ObjectView::Number(*b)]),
            TypedInstruction::TextRenderingMode(TextRenderingMode(a)) => InstructionView::Typed(OpKind::TextRenderingMode, nums_view(seq![*a])),
            TypedInstruction::TextRise(TextRise(a)) => InstructionView::Typed(OpKind::TextRise, nums_view(seq![*a])),
            TypedInstruction::BeginText(_) => InstructionView::Typed(OpKind::BeginText, Seq::empty()),
            TypedInstruction::EndText(_) => InstructionView::Typed(OpKind::EndText, Seq::empty()),
            TypedInstruction::NextLine(NextLine(a, b)) => InstructionView::Typed(OpKind::NextLine, nums_view(seq![*a, *b])),
            TypedInstruction::NextLineAndSetLeading(NextLineAndSetLeading(a, b)) => InstructionView::Typed(OpKind::NextLineAndSetLeading, nums_view(seq![*a, *b])),
            TypedInstruction::SetTextMatrix(SetTextMatrix(a, b, c, d, e, f)) => InstructionView::Typed(OpKind::SetTextMatrix, nums_view(seq![*a, *b, *c, *d, *e, *f])),
            TypedInstruction::NextLineUsingLeading(_) => InstructionView::Typed(OpKind::NextLineUsingLeading, Seq::empty()),
            TypedInstruction::ShowText(ShowText(a)) => InstructionView::Typed(OpKind::ShowText, seq![ObjectView::String(a.view())]),
            TypedInstruction::NextLineAndShowText(NextLineAndShowText(a)) => InstructionView::Typed(OpKind::NextLineAndShowText, seq![ObjectView::String(a.view())]),
            TypedInstruction::ShowTextWithParameters(ShowTextWithParameters(a, b, c)) => InstructionView::Typed(OpKind::ShowTextWithParameters, seq![ObjectView::Number(*a), ObjectView::Number(*b), ObjectView::String(c.view())]),
            TypedInstruction::ShowTexts(ShowTexts(a)) => InstructionView::Typed(OpKind::ShowTexts, seq![ObjectView::Array(a.view())]),
            TypedInstruction::ColorGlyph(ColorGlyph(a, b)) => InstructionView::Typed(OpKind::ColorGlyph, nums_view(seq![*a, *b])),
            TypedInstruction::ShapeGlyph(ShapeGlyph(a, b, c, d, e, f)) => InstructionView::Typed(OpKind::ShapeGlyph, nums_view(seq![*a, *b, *c, *d, *e, *f])),
            TypedInstruction::MarkedContentPoint(MarkedContentPoint(a)) => InstructionView::Typed(OpKind::MarkedContentPoint, seq![ObjectView::Name(a.view())]),
            TypedInstruction::MarkedContentPointWithProperties(MarkedContentPointWithProperties(a, b)) => InstructionView::Typed(OpKind::MarkedContentPointWithProperties, seq![ObjectView::Name(a.view()), b.view()]),
            TypedInstruction::BeginMarkedContent(BeginMarkedContent(a)) => InstructionView::Typed(OpKind::BeginMarkedContent, seq![ObjectView::Name(a.view())]),
            TypedInstruction::BeginMarkedContentWithProperties(BeginMarkedContentWithProperties(a, b)) => InstructionView::Typed(OpKind::BeginMarkedContentWithProperties, seq![ObjectView::Name(a.view()), b.view()]),
            TypedInstruction::EndMarkedContent(_) => InstructionView::Typed(OpKind::EndMarkedContent, Seq::empty()),
            TypedInstruction::Fallback(op) => InstructionView::Fallback(op.0@),
        }
    }
}

/// The instruction that an operator and the operands before it make: the
/// typed instruction of the operator's kind when the operands fit it, none
/// when they do not, and a fallback that keeps the operator when the
/// operator is not known.
pub open spec fn spec_dispatch(op: Seq<u8>, stack: Seq<ObjectView>) -> Option<InstructionView> {
    match spec_op_kind(op) {
        Some(k) => match take_operands(kind_shape(k), stack) {
            Some(ops) => Some(InstructionView::Typed(k, ops)),
            None => None,
        },
        None => Some(InstructionView::Fallback(op)),
    }
}

/// Turn an operator and the operands before it into an instruction: `None`
/// where a known operator's operands do not fit it.
pub fn dispatch(op: Vec<u8>, stack: Vec<Object>) -> (r: Option<TypedInstruction>)
    ensures
        match spec_dispatch(op@, view_objects(stack@)) {
            Some(iv) => r is Some && r.unwrap().view() == iv,
            None => r is None,
        },
{
    let kind = match op_kind(op.as_slice()) {
        Some(k) => k,
        None => {
            return Some(TypedInstruction::Fallback(Operator(op)));
        },
    };
    let r = match kind {
        OpKind::BeginCompatibility => TypedInstruction::BeginCompatibility(BeginCompatibility),
        OpKind::EndCompatibility => TypedInstruction::EndCompatibility(EndCompatibility),
        OpKind::SaveState => TypedInstruction::SaveState(SaveState),
        OpKind::RestoreState => TypedInstruction::RestoreState(RestoreState),
        OpKind::Transform => match take_numbers(&stack, 6) {
            Some(v) => {
                proof {
                    assert(v@ == seq![v@[0], v@[1], v@[2], v@[3], v@[4], v@[5]]);
                }
                TypedInstruction::Transform(Transform(v[0], v[1], v[2], v[3], v[4], v[5]))
            },
            None => return None,
        },
        OpKind::LineWidth => match take_numbers(&stack, 1) {
            Some(v) => {
                proof {
                    assert(v@ == seq![v@[0]]);
                }
                TypedInstruction::LineWidth(LineWidth(v[0]))
            },
            None => return None,
        },
        OpKind::LineCap => match take_numbers(&stack, 1) {
            Some(v) => {
                proof {
                    assert(v@ == seq![v@[0]]);
                }
                TypedInstruction::LineCap(LineCap(v[0]))
            },
            None => return None,
        },
        OpKind::LineJoin => match take_numbers(&stack, 1) {
            Some(v) => {
                proof {
                    assert(v@ == seq![v@[0]]);
                }
                TypedInstruction::LineJoin(LineJoin(v[0]))
            },
            None => return None,
        },
        OpKind::MiterLimit => match take_numbers(&stack, 1) {
            Some(v) => {
                proof {
                    assert(v@ == seq![v@[0]]);
                }
                TypedInstruction::MiterLimit(MiterLimit(v[0]))
            },
            None => return None,
        },
        OpKind::DashPattern => match take_array_number(stack) {
            Some((a, b)) => TypedInstruction::DashPattern(DashPattern(a, b)),
            None => return None,
        },
        OpKind::RenderingIntent => match take_name(stack) {
            Some(a) => TypedInstruction::RenderingIntent(RenderingIntent(a)),
            None => return None,
        },
        OpKind::FlatnessTolerance => match take_numbers(&stack, 1) {
            Some(v) => {
                proof {
                    assert(v@ == seq![v@[0]]);
                }
                TypedInstruction::FlatnessTolerance(FlatnessTolerance(v[0]))
            },
            None => return None,
        },
        OpKind::SetGraphicsState => match take_name(stack) {
            Some(a) => TypedInstruction::SetGraphicsState(SetGraphicsState(a)),
            None => return None,
        },
        OpKind::MoveTo => match take_numbers(&stack, 2) {
            Some(v) => {
                proof {
                    assert(v@ == seq![v@[0], v@[1]]);
                }
                TypedInstruction::MoveTo(MoveTo(v[0], v[1]))
            },
            None => return None,
        },
        OpKind::LineTo => match take_numbers(&stack, 2) {
            Some(v) => {
                proof {
                    assert(v@ == seq![v@[0], v@[1]]);
                }
                TypedInstruction::LineTo(LineTo(v[0], v[1]))
            },
            None => return None,
        },
        OpKind::CubicTo => match take_numbers(&stack, 6) {
            Some(v) => {
                proof {
                    assert(v@ == seq![v@[0], v@[1], v@[2], v@[3], v@[4], v@[5]]);
                }
                TypedInstruction::CubicTo(CubicTo(v[0], v[1], v[2], v[3], v[4], v[5]))
            },
            None => return None,
        },
        OpKind::CubicStartTo => match take_numbers(&stack, 4) {
            Some(v) => {
                proof {
                    assert(v@ == seq![v@[0], v@[1], v@[2], v@[3]]);
                }
                TypedInstruction::CubicStartTo(CubicStartTo(v[0], v[1], v[2], v[3]))
            },
            None => return None,
        },
        OpKind::CubicEndTo => match take_numbers(&stack, 4) {
            Some(v) => {
                proof {
                    assert(v@ == seq![v@[0], v@[1], v@[2], v@[3]]);
                }
                TypedInstruction::CubicEndTo(CubicEndTo(v[0], v[1], v[2], v[3]))
            },
            None => return None,
        },
        OpKind::ClosePath => TypedInstruction::ClosePath(ClosePath),
        OpKind::RectPath => match take_numbers(&stack, 4) {
            Some(v) => {
                proof {
                    assert(v@ == seq![v@[0], v@[1], v@[2], v@[3]]);
                }
                TypedInstruction::RectPath(RectPath(v[0], v[1], v[2], v[3]))
            },
            None => return None,
        },
        OpKind::StrokePath => TypedInstruction::StrokePath(StrokePath),
        OpKind::CloseAndStrokePath => TypedInstruction::CloseAndStrokePath(CloseAndStrokePath),
        OpKind::FillPathNonZero => TypedInstruction::FillPathNonZero(FillPathNonZero),
        OpKind::FillPathNonZeroCompatibility => TypedInstruction::FillPathNonZeroCompatibility(FillPathNonZeroCompatibility),
        OpKind::FillPathEvenOdd => TypedInstruction::FillPathEvenOdd(FillPathEvenOdd),
        OpKind::FillAndStrokeNonZero => TypedInstruction::FillAndStrokeNonZero(FillAndStrokeNonZero),
        OpKind::FillAndStrokeEvenOdd => TypedInstruction::FillAndStrokeEvenOdd(FillAndStrokeEvenOdd),
        OpKind::CloseFillAndStrokeNonZero => TypedInstruction::CloseFillAndStrokeNonZero(CloseFillAndStrokeNonZero),
        OpKind::CloseFillAndStrokeEvenOdd => TypedInstruction::CloseFillAndStrokeEvenOdd(CloseFillAndStrokeEvenOdd),
        OpKind::EndPath => TypedInstruction::EndPath(EndPath),
        OpKind::ClipNonZero => TypedInstruction::ClipNonZero(ClipNonZero),
        OpKind::ClipEvenOdd => TypedInstruction::ClipEvenOdd(ClipEvenOdd),
        OpKind::ColorSpaceStroke => match take_name(stack) {
            Some(a) => TypedInstruction::ColorSpaceStroke(ColorSpaceStroke(a)),
            None => return None,
        },
        OpKind::ColorSpaceNonStroke => match take_name(stack) {
            Some(a) => TypedInstruction::ColorSpaceNonStroke(ColorSpaceNonStroke(a)),
            None => return None,
        },
        OpKind::StrokeColor => match take_all_numbers(&stack) {
            Some(a) => TypedInstruction::StrokeColor(StrokeColor(a)),
            None => return None,
        },
        OpKind::StrokeColorNamed => match take_named_color(stack) {
            Some((a, b)) => TypedInstruction::StrokeColorNamed(StrokeColorNamed(a, b)),
            None => return None,
        },
        OpKind::NonStrokeColor => match take_all_numbers(&stack) {
            Some(a) => TypedInstruction::NonStrokeColor(NonStrokeColor(a)),
            None => return None,
        },
        OpKind::NonStrokeColorNamed => match take_named_color(stack) {
            Some((a, b)) => TypedInstruction::NonStrokeColorNamed(NonStrokeColorNamed(a, b)),
            None => return None,
        },
        OpKind::StrokeColorDeviceGray => match take_numbers(&stack, 1) {
            Some(v) => {
                proof {
                    assert(v@ == seq![v@[0]]);
                }
                TypedInstruction::StrokeColorDeviceGray(StrokeColorDeviceGray(v[0]))
            },
            None => return None,
        },
        OpKind::NonStrokeColorDeviceGray => match take_numbers(&stack, 1) {
            Some(v) => {
                proof {
                    assert(v@ == seq![v@[0]]);
                }
                TypedInstruction::NonStrokeColorDeviceGray(NonStrokeColorDeviceGray(v[0]))
            },
            None => return None,
        },
        OpKind::StrokeColorDeviceRgb => match take_numbers(&stack, 3) {
            Some(v) => {
                proof {
                    assert(v@ == seq![v@[0], v@[1], v@[2]]);
                }
                TypedInstruction::StrokeColorDeviceRgb(StrokeColorDeviceRgb(v[0], v[1], v[2]))
            },
            None => return None,
        },
        OpKind::NonStrokeColorDeviceRgb => match take_numbers(&stack, 3) {
            Some(v) => {
                proof {
                    assert(v@ == seq![v@[0], v@[1], v@[2]]);
                }
                TypedInstruction::NonStrokeColorDeviceRgb(NonStrokeColorDeviceRgb(v[0], v[1], v[2]))
            },
            None => return None,
        },
        OpKind::StrokeColorCmyk => match take_numbers(&stack, 4) {
            Some(v) => {
                proof {
                    assert(v@ == seq![v@[0], v@[1], v@[2], v@[3]]);
                }
                TypedInstruction::StrokeColorCmyk(StrokeColorCmyk(v[0], v[1], v[2], v[3]))
            },
            None => return None,
        },
        OpKind::NonStrokeColorCmyk => match take_numbers(&stack, 4) {
            Some(v) => {
                proof {
                    assert(v@ == seq![v@[0], v@[1], v@[2], v@[3]]);
                }
                TypedInstruction::NonStrokeColorCmyk(NonStrokeColorCmyk(v[0], v[1], v[2], v[3]))
            },
            None => return None,
        },
        OpKind::Shading => match take_name(stack) {
            Some(a) => TypedInstruction::Shading(Shading(a)),
            None => return None,
        },
        OpKind::XObject => match take_name(stack) {
            Some(a) => TypedInstruction::XObject(XObject(a)),
            None => return None,
        },
        OpKind::InlineImage => return None,
        OpKind::CharacterSpacing => match take_numbers(&stack, 1) {
            Some(v) => {
                proof {
                    assert(v@ == seq![v@[0]]);
                }
                TypedInstruction::CharacterSpacing(CharacterSpacing(v[0]))
            },
            None => return None,
        },
        OpKind::WordSpacing => match take_numbers(&stack, 1) {
            Some(v) => {
                proof {
                    assert(v@ == seq![v@[0]]);
                }
                TypedInstruction::WordSpacing(WordSpacing(v[0]))
            },
            None => return None,
        },
        OpKind::HorizontalScaling => match take_numbers(&stack, 1) {
            Some(v) => {
                proof {
                    assert(v@ == seq![v@[0]]);
                }
                TypedInstruction::HorizontalScaling(HorizontalScaling(v[0]))
            },
            None => return None,
        },
        OpKind::TextLeading => match take_numbers(&stack, 1) {
            Some(v) => {
                proof {
                    assert(v@ == seq![v@[0]]);
                }
                TypedInstruction::TextLeading(TextLeading(v[0]))
            },
            None => return None,
        },
        OpKind::TextFont => match take_name_number(stack) {
            Some((a, b)) => TypedInstruction::TextFont(TextFont(a, b)),
            None => return None,
        },
        OpKind::TextRenderingMode => match take_numbers(&stack, 1) {
            Some(v) => {
                proof {
                    assert(v@ == seq![v@[0]]);
                }
                TypedInstruction::TextRenderingMode(TextRenderingMode(v[0]))
            },
            None => return None,
        },
        OpKind::TextRise => match take_numbers(&stack, 1) {
            Some(v) => {
                proof {
                    assert(v@ == seq![v@[0]]);
                }
                TypedInstruction::TextRise(TextRise(v[0]))
            },
            None => return None,
        },
        OpKind::BeginText => TypedInstruction::BeginText(BeginText),
        OpKind::EndText => TypedInstruction::EndText(EndText),
        OpKind::NextLine => match take_numbers(&stack, 2) {
            Some(v) => {
                proof {
                    assert(v@ == seq![v@[0], v@[1]]);
                }
                TypedInstruction::NextLine(NextLine(v[0], v[1]))
            },
            None => return None,
        },
        OpKind::NextLineAndSetLeading => match take_numbers(&stack, 2) {
            Some(v) => {
                proof {
                    assert(v@ == seq![v@[0], v@[1]]);
                }
                TypedInstruction::NextLineAndSetLeading(NextLineAndSetLeading(v[0], v[1]))
            },
            None => return None,
        },
        OpKind::SetTextMatrix => match take_numbers(&stack, 6) {
            Some(v) => {
                proof {
                    assert(v@ == seq![v@[0], v@[1], v@[2], v@[3], v@[4], v@[5]]);
                }
                TypedInstruction::SetTextMatrix(SetTextMatrix(v[0], v[1], v[2], v[3], v[4], v[5]))
            },
            None => return None,
        },
        OpKind::NextLineUsingLeading => TypedInstruction::NextLineUsingLeading(NextLineUsingLeading),
        OpKind::ShowText => match take_text(stack) {
            Some(a) => TypedInstruction::ShowText(ShowText(a)),
            None => return None,
        },
        OpKind::NextLineAndShowText => match take_text(stack) {
            Some(a) => TypedInstruction::NextLineAndShowText(NextLineAndShowText(a)),
            None => return None,
        },
        OpKind::ShowTextWithParameters => match take_number_number_text(stack) {
            Some((a, b, c)) => TypedInstruction::ShowTextWithParameters(ShowTextWithParameters(a, b, c)),
            None => return None,
        },
        OpKind::ShowTexts => match take_text_array(stack) {
            Some(a) => TypedInstruction::ShowTexts(ShowTexts(a)),
            None => return None,
        },
        OpKind::ColorGlyph => match take_numbers(&stack, 2) {
            Some(v) => {
                proof {
                    assert(v@ == seq![v@[0], v@[1]]);
                }
                TypedInstruction::ColorGlyph(ColorGlyph(v[0], v[1]))
            },
            None => return None,
        },
        OpKind::ShapeGlyph => match take_numbers(&stack, 6) {
            Some(v) => {
                proof {
                    assert(v@ == seq![v@[0], v@[1], v@[2], v@[3], v@[4], v@[5]]);
                }
                TypedInstruction::ShapeGlyph(ShapeGlyph(v[0], v[1], v[2], v[3], v[4], v[5]))
            },
            None => return None,
        },
        OpKind::MarkedContentPoint => match take_name(stack) {
            Some(a) => TypedInstruction::MarkedContentPoint(MarkedContentPoint(a)),
            None => return None,
        },
        OpKind::MarkedContentPointWithProperties => match take_name_object(stack) {
            Some((a, b)) => TypedInstruction::MarkedContentPointWithProperties(MarkedContentPointWithProperties(a, b)),
            None => return None,
        },
        OpKind::BeginMarkedContent => match take_name(stack) {
            Some(a) => TypedInstruction::BeginMarkedContent(BeginMarkedContent(a)),
            None => return None,
        },
        OpKind::BeginMarkedContentWithProperties => match take_name_object(stack) {
            Some((a, b)) => TypedInstruction::BeginMarkedContentWithProperties(BeginMarkedContentWithProperties(a, b)),
            None => return None,
        },
        OpKind::EndMarkedContent => TypedInstruction::EndMarkedContent(EndMarkedContent),
    };
    Some(r)
}

proof fn lemma_kind_label_ascii(k: OpKind)
    ensures
        is_ascii_seq(kind_label(k)),
{
    match k {
        OpKind::BeginCompatibility => {
            assert(is_ascii_seq(kind_label(k)));
        },
        OpKind::EndCompatibility => {
            assert(is_ascii_seq(kind_label(k)));
        },
        OpKind::SaveState => {
            assert(is_ascii_seq(kind_label(k)));
        },
        OpKind::RestoreState => {
            assert(is_ascii_seq(kind_label(k)));
        },
        OpKind::Transform => {
            assert(is_ascii_seq(kind_label(k)));
        },
        OpKind::LineWidth => {
            assert(is_ascii_seq(kind_label(k)));
        },
        OpKind::LineCap => {
            assert(is_ascii_seq(kind_label(k)));
        },
        OpKind::LineJoin => {
            assert(is_ascii_seq(kind_label(k)));
        },
        OpKind::MiterLimit => {
            assert(is_ascii_seq(kind_label(k)));
        },
        OpKind::DashPattern => {
            assert(is_ascii_seq(kind_label(k)));
        },
        OpKind::RenderingIntent => {
            assert(is_ascii_seq(kind_label(k)));
        },
        OpKind::FlatnessTolerance => {
            assert(is_ascii_seq(kind_label(k)));
        },
        OpKind::SetGraphicsState => {
            assert(is_ascii_seq(kind_label(k)));
        },
        OpKind::MoveTo => {
            assert(is_ascii_seq(kind_label(k)));
        },
        OpKind::LineTo => {
            assert(is_ascii_seq(kind_label(k)));
        },
        OpKind::CubicTo => {
            assert(is_ascii_seq(kind_label(k)));
        },
        OpKind::CubicStartTo => {
            assert(is_ascii_seq(kind_label(k)));
        },
        OpKind::CubicEndTo => {
            assert(is_ascii_seq(kind_label(k)));
        },
        OpKind::ClosePath => {
            assert(is_ascii_seq(kind_label(k)));
        },
        OpKind::RectPath => {
            assert(is_ascii_seq(kind_label(k)));
        },
        OpKind::StrokePath => {
            assert(is_ascii_seq(kind_label(k)));
        },
        OpKind::CloseAndStrokePath => {
            assert(is_ascii_seq(kind_label(k)));
        },
        OpKind::FillPathNonZero => {
            assert(is_ascii_seq(kind_label(k)));
        },
        OpKind::FillPathNonZeroCompatibility => {
            assert(is_ascii_seq(kind_label(k)));
        },
        OpKind::FillPathEvenOdd => {
            assert(is_ascii_seq(kind_label(k)));
        },
        OpKind::FillAndStrokeNonZero => {
            assert(is_ascii_seq(kind_label(k)));
        },
        OpKind::FillAndStrokeEvenOdd => {
            assert(is_ascii_seq(kind_label(k)));
        },
        OpKind::CloseFillAndStrokeNonZero => {
            assert(is_ascii_seq(kind_label(k)));
        },
        OpKind::CloseFillAndStrokeEvenOdd => {
            assert(is_ascii_seq(kind_label(k)));
        },
        OpKind::EndPath => {
            assert(is_ascii_seq(kind_label(k)));
        },
        OpKind::ClipNonZero => {
            assert(is_ascii_seq(kind_label(k)));
        },
        OpKind::ClipEvenOdd => {
            assert(is_ascii_seq(kind_label(k)));
        },
        OpKind::ColorSpaceStroke => {
            assert(is_ascii_seq(kind_label(k)));
        },
        OpKind::ColorSpaceNonStroke => {
            assert(is_ascii_seq(kind_label(k)));
        },
        OpKind::StrokeColor => {
            assert(is_ascii_seq(kind_label(k)));
        },
        OpKind::StrokeColorNamed => {
            assert(is_ascii_seq(kind_label(k)));
        },
        OpKind::NonStrokeColor => {
            assert(is_ascii_seq(kind_label(k)));
        },
        OpKind::NonStrokeColorNamed => {
            assert(is_ascii_seq(kind_label(k)));
        },
        OpKind::StrokeColorDeviceGray => {
            assert(is_ascii_seq(kind_label(k)));
        },
        OpKind::NonStrokeColorDeviceGray => {
            assert(is_ascii_seq(kind_label(k)));
        },
        OpKind::StrokeColorDeviceRgb => {
            assert(is_ascii_seq(kind_label(k)));
        },
        OpKind::NonStrokeColorDeviceRgb => {
            assert(is_ascii_seq(kind_label(k)));
        },
        OpKind::StrokeColorCmyk => {
            assert(is_ascii_seq(kind_label(k)));
        },
        OpKind::NonStrokeColorCmyk => {
            assert(is_ascii_seq(kind_label(k)));
        },
        OpKind::Shading => {
            assert(is_ascii_seq(kind_label(k)));
        },
        OpKind::XObject => {
            assert(is_ascii_seq(kind_label(k)));
        },
        OpKind::InlineImage => {
            assert(is_ascii_seq(kind_label(k)));
        },
        OpKind::CharacterSpacing => {
            assert(is_ascii_seq(kind_label(k)));
        },
        OpKind::WordSpacing => {
            assert(is_ascii_seq(kind_label(k)));
        },
        OpKind::HorizontalScaling => {
            assert(is_ascii_seq(kind_label(k)));
        },
        OpKind::TextLeading => {
            assert(is_ascii_seq(kind_label(k)));
        },
        OpKind::TextFont => {
            assert(is_ascii_seq(kind_label(k)));
        },
        OpKind::TextRenderingMode => {
            assert(is_ascii_seq(kind_label(k)));
        },
        OpKind::TextRise => {
            assert(is_ascii_seq(kind_label(k)));
        },
        OpKind::BeginText => {
            assert(is_ascii_seq(kind_label(k)));
        },
        OpKind::EndText => {
            assert(is_ascii_seq(kind_label(k)));
        },
        OpKind::NextLine => {
            assert(is_ascii_seq(kind_label(k)));
        },
        OpKind::NextLineAndSetLeading => {
            assert(is_ascii_seq(kind_label(k)));
        },
        OpKind::SetTextMatrix => {
            assert(is_ascii_seq(kind_label(k)));
        },
        OpKind::NextLineUsingLeading => {
            assert(is_ascii_seq(kind_label(k)));
        },
        OpKind::ShowText => {
            assert(is_ascii_seq(kind_label(k)));
        },
        OpKind::NextLineAndShowText => {
            assert(is_ascii_seq(kind_label(k)));
        },
        OpKind::ShowTextWithParameters => {
            assert(is_ascii_seq(kind_label(k)));
        },
        OpKind::ShowTexts => {
            assert(is_ascii_seq(kind_label(k)));
        },
        OpKind::ColorGlyph => {
            assert(is_ascii_seq(kind_label(k)));
        },
        OpKind::ShapeGlyph => {
            assert(is_ascii_seq(kind_label(k)));
        },
        OpKind::MarkedContentPoint => {
            assert(is_ascii_seq(kind_label(k)));
        },
        OpKind::MarkedContentPointWithProperties => {
            assert(is_ascii_seq(kind_label(k)));
        },
        OpKind::BeginMarkedContent => {
            assert(is_ascii_seq(kind_label(k)));
        },
        OpKind::BeginMarkedContentWithProperties => {
            assert(is_ascii_seq(kind_label(k)));
        },
        OpKind::EndMarkedContent => {
            assert(is_ascii_seq(kind_label(k)));
        },
    }
}

/// The text of an instruction: the name of its kind, followed by its
/// operands in parentheses when it has any.
pub open spec fn instruction_text(iv: InstructionView) -> Seq<u8> {
    match iv {
        InstructionView::Typed(k, ops) => if ops.len() == 0 {
            kind_label(k)
        } else {
            kind_label(k) + seq![0x28u8] + objects_text(ops) + seq![0x29u8]
        },
        InstructionView::InlineImage(d, data) => kind_label(OpKind::InlineImage) + seq![0x28u8]
            + object_text(ObjectView::Dict(d)) + seq![0x29u8],
        InstructionView::Fallback(t) => seq![0x46u8, 0x61, 0x6c, 0x6c, 0x62, 0x61, 0x63, 0x6b, 0x28]
            + escaped_bytes(t) + seq![0x29u8],
    }
}

/// Append the name of a kind.
pub fn push_label(out: &mut Vec<u8>, k: OpKind)
    ensures
        final(out)@ == old(out)@ + kind_label(k),
{
    match k {
        OpKind::BeginCompatibility => {
            let l: [u8; 18] = [0x42, 0x65, 0x67, 0x69, 0x6e, 0x43, 0x6f, 0x6d, 0x70, 0x61, 0x74, 0x69, 0x62, 0x69, 0x6c, 0x69, 0x74, 0x79];
            assert(l@ == kind_label(k));
            push_all(out, &l);
        },
        OpKind::EndCompatibility => {
            let l: [u8; 16] = [0x45, 0x6e, 0x64, 0x43, 0x6f, 0x6d, 0x70, 0x61, 0x74, 0x69, 0x62, 0x69, 0x6c, 0x69, 0x74, 0x79];
            assert(l@ == kind_label(k));
            push_all(out, &l);
        },
        OpKind::SaveState => {
            let l: [u8; 9] = [0x53, 0x61, 0x76, 0x65, 0x53, 0x74, 0x61, 0x74, 0x65];
            assert(l@ == kind_label(k));
            push_all(out, &l);
        },
        OpKind::RestoreState => {
            let l: [u8; 12] = [0x52, 0x65, 0x73, 0x74, 0x6f, 0x72, 0x65, 0x53, 0x74, 0x61, 0x74, 0x65];
            assert(l@ == kind_label(k));
            push_all(out, &l);
        },
        OpKind::Transform => {
            let l: [u8; 9] = [0x54, 0x72, 0x61, 0x6e, 0x73, 0x66, 0x6f, 0x72, 0x6d];
            assert(l@ == kind_label(k));
            push_all(out, &l);
        },
        OpKind::LineWidth => {
            let l: [u8; 9] = [0x4c, 0x69, 0x6e, 0x65, 0x57, 0x69, 0x64, 0x74, 0x68];
            assert(l@ == kind_label(k));
            push_all(out, &l);
        },
        OpKind::LineCap => {
            let l: [u8; 7] = [0x4c, 0x69, 0x6e, 0x65, 0x43, 0x61, 0x70];
            assert(l@ == kind_label(k));
            push_all(out, &l);
        },
        OpKind::LineJoin => {
            let l: [u8; 8] = [0x4c, 0x69, 0x6e, 0x65, 0x4a, 0x6f, 0x69, 0x6e];
            assert(l@ == kind_label(k));
            push_all(out, &l);
        },
        OpKind::MiterLimit => {
            let l: [u8; 10] = [0x4d, 0x69, 0x74, 0x65, 0x72, 0x4c, 0x69, 0x6d, 0x69, 0x74];
            assert(l@ == kind_label(k));
            push_all(out, &l);
        },
        OpKind::DashPattern => {
            let l: [u8; 11] = [0x44, 0x61, 0x73, 0x68, 0x50, 0x61, 0x74, 0x74, 0x65, 0x72, 0x6e];
            assert(l@ == kind_label(k));
            push_all(out, &l);
        },
        OpKind::RenderingIntent => {
            let l: [u8; 15] = [0x52, 0x65, 0x6e, 0x64, 0x65, 0x72, 0x69, 0x6e, 0x67, 0x49, 0x6e, 0x74, 0x65, 0x6e, 0x74];
            assert(l@ == kind_label(k));
            push_all(out, &l);
        },
        OpKind::FlatnessTolerance => {
            let l: [u8; 17] = [0x46, 0x6c, 0x61, 0x74, 0x6e, 0x65, 0x73, 0x73, 0x54, 0x6f, 0x6c, 0x65, 0x72, 0x61, 0x6e, 0x63, 0x65];
            assert(l@ == kind_label(k));
            push_all(out, &l);
        },
        OpKind::SetGraphicsState => {
            let l: [u8; 16] = [0x53, 0x65, 0x74, 0x47, 0x72, 0x61, 0x70, 0x68, 0x69, 0x63, 0x73, 0x53, 0x74, 0x61, 0x74, 0x65];
            assert(l@ == kind_label(k));
            push_all(out, &l);
        },
        OpKind::MoveTo => {
            let l: [u8; 6] = [0x4d, 0x6f, 0x76, 0x65, 0x54, 0x6f];
            assert(l@ == kind_label(k));
            push_all(out, &l);
        },
        OpKind::LineTo => {
            let l: [u8; 6] = [0x4c, 0x69, 0x6e, 0x65, 0x54, 0x6f];
            assert(l@ == kind_label(k));
            push_all(out, &l);
        },
        OpKind::CubicTo => {
            let l: [u8; 7] = [0x43, 0x75, 0x62, 0x69, 0x63, 0x54, 0x6f];
            assert(l@ == kind_label(k));
            push_all(out, &l);
        },
        OpKind::CubicStartTo => {
            let l: [u8; 12] = [0x43, 0x75, 0x62, 0x69, 0x63, 0x53, 0x74, 0x61, 0x72, 0x74, 0x54, 0x6f];
            assert(l@ == kind_label(k));
            push_all(out, &l);
        },
        OpKind::CubicEndTo => {
            let l: [u8; 10] = [0x43, 0x75, 0x62, 0x69, 0x63, 0x45, 0x6e, 0x64, 0x54, 0x6f];
            assert(l@ == kind_label(k));
            push_all(out, &l);
        },
        OpKind::ClosePath => {
            let l: [u8; 9] = [0x43, 0x6c, 0x6f, 0x73, 0x65, 0x50, 0x61, 0x74, 0x68];
            assert(l@ == kind_label(k));
            push_all(out, &l);
        },
        OpKind::RectPath => {
            let l: [u8; 8] = [0x52, 0x65, 0x63, 0x74, 0x50, 0x61, 0x74, 0x68];
            assert(l@ == kind_label(k));
            push_all(out, &l);
        },
        OpKind::StrokePath => {
            let l: [u8; 10] = [0x53, 0x74, 0x72, 0x6f, 0x6b, 0x65, 0x50, 0x61, 0x74, 0x68];
            assert(l@ == kind_label(k));
            push_all(out, &l);
        },
        OpKind::CloseAndStrokePath => {
            let l: [u8; 18] = [0x43, 0x6c, 0x6f, 0x73, 0x65, 0x41, 0x6e, 0x64, 0x53, 0x74, 0x72, 0x6f, 0x6b, 0x65, 0x50, 0x61, 0x74, 0x68];
            assert(l@ == kind_label(k));
            push_all(out, &l);
        },
        OpKind::FillPathNonZero => {
            let l: [u8; 15] = [0x46, 0x69, 0x6c, 0x6c, 0x50, 0x61, 0x74, 0x68, 0x4e, 0x6f, 0x6e, 0x5a, 0x65, 0x72, 0x6f];
            assert(l@ == kind_label(k));
            push_all(out, &l);
        },
        OpKind::FillPathNonZeroCompatibility => {
            let l: [u8; 28] = [0x46, 0x69, 0x6c, 0x6c, 0x50, 0x61, 0x74, 0x68, 0x4e, 0x6f, 0x6e, 0x5a, 0x65, 0x72, 0x6f, 0x43, 0x6f, 0x6d, 0x70, 0x61, 0x74, 0x69, 0x62, 0x69, 0x6c, 0x69, 0x74, 0x79];
            assert(l@ == kind_label(k));
            push_all(out, &l);
        },
        OpKind::FillPathEvenOdd => {
            let l: [u8; 15] = [0x46, 0x69, 0x6c, 0x6c, 0x50, 0x61, 0x74, 0x68, 0x45, 0x76, 0x65, 0x6e, 0x4f, 0x64, 0x64];
            assert(l@ == kind_label(k));
            push_all(out, &l);
        },
        OpKind::FillAndStrokeNonZero => {
            let l: [u8; 20] = [0x46, 0x69, 0x6c, 0x6c, 0x41, 0x6e, 0x64, 0x53, 0x74, 0x72, 0x6f, 0x6b, 0x65, 0x4e, 0x6f, 0x6e, 0x5a, 0x65, 0x72, 0x6f];
            assert(l@ == kind_label(k));
            push_all(out, &l);
        },
        OpKind::FillAndStrokeEvenOdd => {
            let l: [u8; 20] = [0x46, 0x69, 0x6c, 0x6c, 0x41, 0x6e, 0x64, 0x53, 0x74, 0x72, 0x6f, 0x6b, 0x65, 0x45, 0x76, 0x65, 0x6e, 0x4f, 0x64, 0x64];
            assert(l@ == kind_label(k));
            push_all(out, &l);
        },
        OpKind::CloseFillAndStrokeNonZero => {
            let l: [u8; 25] = [0x43, 0x6c, 0x6f, 0x73, 0x65, 0x46, 0x69, 0x6c, 0x6c, 0x41, 0x6e, 0x64, 0x53, 0x74, 0x72, 0x6f, 0x6b, 0x65, 0x4e, 0x6f, 0x6e, 0x5a, 0x65, 0x72, 0x6f];
            assert(l@ == kind_label(k));
            push_all(out, &l);
        },
        OpKind::CloseFillAndStrokeEvenOdd => {
            let l: [u8; 25] = [0x43, 0x6c, 0x6f, 0x73, 0x65, 0x46, 0x69, 0x6c, 0x6c, 0x41, 0x6e, 0x64, 0x53, 0x74, 0x72, 0x6f, 0x6b, 0x65, 0x45, 0x76, 0x65, 0x6e, 0x4f, 0x64, 0x64];
            assert(l@ == kind_label(k));
            push_all(out, &l);
        },
        OpKind::EndPath => {
            let l: [u8; 7] = [0x45, 0x6e, 0x64, 0x50, 0x61, 0x74, 0x68];
            assert(l@ == kind_label(k));
            push_all(out, &l);
        },
        OpKind::ClipNonZero => {
            let l: [u8; 11] = [0x43, 0x6c, 0x69, 0x70, 0x4e, 0x6f, 0x6e, 0x5a, 0x65, 0x72, 0x6f];
            assert(l@ == kind_label(k));
            push_all(out, &l);
        },
        OpKind::ClipEvenOdd => {
            let l: [u8; 11] = [0x43, 0x6c, 0x69, 0x70, 0x45, 0x76, 0x65, 0x6e, 0x4f, 0x64, 0x64];
            assert(l@ == kind_label(k));
            push_all(out, &l);
        },
        OpKind::ColorSpaceStroke => {
            let l: [u8; 16] = [0x43, 0x6f, 0x6c, 0x6f, 0x72, 0x53, 0x70, 0x61, 0x63, 0x65, 0x53, 0x74, 0x72, 0x6f, 0x6b, 0x65];
            assert(l@ == kind_label(k));
            push_all(out, &l);
        },
        OpKind::ColorSpaceNonStroke => {
            let l: [u8; 19] = [0x43, 0x6f, 0x6c, 0x6f, 0x72, 0x53, 0x70, 0x61, 0x63, 0x65, 0x4e, 0x6f, 0x6e, 0x53, 0x74, 0x72, 0x6f, 0x6b, 0x65];
            assert(l@ == kind_label(k));
            push_all(out, &l);
        },
        OpKind::StrokeColor => {
            let l: [u8; 11] = [0x53, 0x74, 0x72, 0x6f, 0x6b, 0x65, 0x43, 0x6f, 0x6c, 0x6f, 0x72];
            assert(l@ == kind_label(k));
            push_all(out, &l);
        },
        OpKind::StrokeColorNamed => {
            let l: [u8; 16] = [0x53, 0x74, 0x72, 0x6f, 0x6b, 0x65, 0x43, 0x6f, 0x6c, 0x6f, 0x72, 0x4e, 0x61, 0x6d, 0x65, 0x64];
            assert(l@ == kind_label(k));
            push_all(out, &l);
        },
        OpKind::NonStrokeColor => {
            let l: [u8; 14] = [0x4e, 0x6f, 0x6e, 0x53, 0x74, 0x72, 0x6f, 0x6b, 0x65, 0x43, 0x6f, 0x6c, 0x6f, 0x72];
            assert(l@ == kind_label(k));
            push_all(out, &l);
        },
        OpKind::NonStrokeColorNamed => {
            let l: [u8; 19] = [0x4e, 0x6f, 0x6e, 0x53, 0x74, 0x72, 0x6f, 0x6b, 0x65, 0x43, 0x6f, 0x6c, 0x6f, 0x72, 0x4e, 0x61, 0x6d, 0x65, 0x64];
            assert(l@ == kind_label(k));
            push_all(out, &l);
        },
        OpKind::StrokeColorDeviceGray => {
            let l: [u8; 21] = [0x53, 0x74, 0x72, 0x6f, 0x6b, 0x65, 0x43, 0x6f, 0x6c, 0x6f, 0x72, 0x44, 0x65, 0x76, 0x69, 0x63, 0x65, 0x47, 0x72, 0x61, 0x79];
            assert(l@ == kind_label(k));
            push_all(out, &l);
        },
        OpKind::NonStrokeColorDeviceGray => {
            let l: [u8; 24] = [0x4e, 0x6f, 0x6e, 0x53, 0x74, 0x72, 0x6f, 0x6b, 0x65, 0x43, 0x6f, 0x6c, 0x6f, 0x72, 0x44, 0x65, 0x76, 0x69, 0x63, 0x65, 0x47, 0x72, 0x61, 0x79];
            assert(l@ == kind_label(k));
            push_all(out, &l);
        },
        OpKind::StrokeColorDeviceRgb => {
            let l: [u8; 20] = [0x53, 0x74, 0x72, 0x6f, 0x6b, 0x65, 0x43, 0x6f, 0x6c, 0x6f, 0x72, 0x44, 0x65, 0x76, 0x69, 0x63, 0x65, 0x52, 0x67, 0x62];
            assert(l@ == kind_label(k));
            push_all(out, &l);
        },
        OpKind::NonStrokeColorDeviceRgb => {
            let l: [u8; 23] = [0x4e, 0x6f, 0x6e, 0x53, 0x74, 0x72, 0x6f, 0x6b, 0x65, 0x43, 0x6f, 0x6c, 0x6f, 0x72, 0x44, 0x65, 0x76, 0x69, 0x63, 0x65, 0x52, 0x67, 0x62];
            assert(l@ == kind_label(k));
            push_all(out, &l);
        },
        OpKind::StrokeColorCmyk => {
            let l: [u8; 15] = [0x53, 0x74, 0x72, 0x6f, 0x6b, 0x65, 0x43, 0x6f, 0x6c, 0x6f, 0x72, 0x43, 0x6d, 0x79, 0x6b];
            assert(l@ == kind_label(k));
            push_all(out, &l);
        },
        OpKind::NonStrokeColorCmyk => {
            let l: [u8; 18] = [0x4e, 0x6f, 0x6e, 0x53, 0x74, 0x72, 0x6f, 0x6b, 0x65, 0x43, 0x6f, 0x6c, 0x6f, 0x72, 0x43, 0x6d, 0x79, 0x6b];
            assert(l@ == kind_label(k));
            push_all(out, &l);
        },
        OpKind::Shading => {
            let l: [u8; 7] = [0x53, 0x68, 0x61, 0x64, 0x69, 0x6e, 0x67];
            assert(l@ == kind_label(k));
            push_all(out, &l);
        },
        OpKind::XObject => {
            let l: [u8; 7] = [0x58, 0x4f, 0x62, 0x6a, 0x65, 0x63, 0x74];
            assert(l@ == kind_label(k));
            push_all(out, &l);
        },
        OpKind::InlineImage => {
            let l: [u8; 11] = [0x49, 0x6e, 0x6c, 0x69, 0x6e, 0x65, 0x49, 0x6d, 0x61, 0x67, 0x65];
            assert(l@ == kind_label(k));
            push_all(out, &l);
        },
        OpKind::CharacterSpacing => {
            let l: [u8; 16] = [0x43, 0x68, 0x61, 0x72, 0x61, 0x63, 0x74, 0x65, 0x72, 0x53, 0x70, 0x61, 0x63, 0x69, 0x6e, 0x67];
            assert(l@ == kind_label(k));
            push_all(out, &l);
        },
        OpKind::WordSpacing => {
            let l: [u8; 11] = [0x57, 0x6f, 0x72, 0x64, 0x53, 0x70, 0x61, 0x63, 0x69, 0x6e, 0x67];
            assert(l@ == kind_label(k));
            push_all(out, &l);
        },
        OpKind::HorizontalScaling => {
            let l: [u8; 17] = [0x48, 0x6f, 0x72, 0x69, 0x7a, 0x6f, 0x6e, 0x74, 0x61, 0x6c, 0x53, 0x63, 0x61, 0x6c, 0x69, 0x6e, 0x67];
            assert(l@ == kind_label(k));
            push_all(out, &l);
        },
        OpKind::TextLeading => {
            let l: [u8; 11] = [0x54, 0x65, 0x78, 0x74, 0x4c, 0x65, 0x61, 0x64, 0x69, 0x6e, 0x67];
            assert(l@ == kind_label(k));
            push_all(out, &l);
        },
        OpKind::TextFont => {
            let l: [u8; 8] = [0x54, 0x65, 0x78, 0x74, 0x46, 0x6f, 0x6e, 0x74];
            assert(l@ == kind_label(k));
            push_all(out, &l);
        },
        OpKind::TextRenderingMode => {
            let l: [u8; 17] = [0x54, 0x65, 0x78, 0x74, 0x52, 0x65, 0x6e, 0x64, 0x65, 0x72, 0x69, 0x6e, 0x67, 0x4d, 0x6f, 0x64, 0x65];
            assert(l@ == kind_label(k));
            push_all(out, &l);
        },
        OpKind::TextRise => {
            let l: [u8; 8] = [0x54, 0x65, 0x78, 0x74, 0x52, 0x69, 0x73, 0x65];
            assert(l@ == kind_label(k));
            push_all(out, &l);
        },
        OpKind::BeginText => {
            let l: [u8; 9] = [0x42, 0x65, 0x67, 0x69, 0x6e, 0x54, 0x65, 0x78, 0x74];
            assert(l@ == kind_label(k));
            push_all(out, &l);
        },
        OpKind::EndText => {
            let l: [u8; 7] = [0x45, 0x6e, 0x64, 0x54, 0x65, 0x78, 0x74];
            assert(l@ == kind_label(k));
            push_all(out, &l);
        },
        OpKind::NextLine => {
            let l: [u8; 8] = [0x4e, 0x65, 0x78, 0x74, 0x4c, 0x69, 0x6e, 0x65];
            assert(l@ == kind_label(k));
            push_all(out, &l);
        },
        OpKind::NextLineAndSetLeading => {
            let l: [u8; 21] = [0x4e, 0x65, 0x78, 0x74, 0x4c, 0x69, 0x6e, 0x65, 0x41, 0x6e, 0x64, 0x53, 0x65, 0x74, 0x4c, 0x65, 0x61, 0x64, 0x69, 0x6e, 0x67];
            assert(l@ == kind_label(k));
            push_all(out, &l);
        },
        OpKind::SetTextMatrix => {
            let l: [u8; 13] = [0x53, 0x65, 0x74, 0x54, 0x65, 0x78, 0x74, 0x4d, 0x61, 0x74, 0x72, 0x69, 0x78];
            assert(l@ == kind_label(k));
            push_all(out, &l);
        },
        OpKind::NextLineUsingLeading => {
            let l: [u8; 20] = [0x4e, 0x65, 0x78, 0x74, 0x4c, 0x69, 0x6e, 0x65, 0x55, 0x73, 0x69, 0x6e, 0x67, 0x4c, 0x65, 0x61, 0x64, 0x69, 0x6e, 0x67];
            assert(l@ == kind_label(k));
            push_all(out, &l);
        },
        OpKind::ShowText => {
            let l: [u8; 8] = [0x53, 0x68, 0x6f, 0x77, 0x54, 0x65, 0x78, 0x74];
            assert(l@ == kind_label(k));
            push_all(out, &l);
        },
        OpKind::NextLineAndShowText => {
            let l: [u8; 19] = [0x4e, 0x65, 0x78, 0x74, 0x4c, 0x69, 0x6e, 0x65, 0x41, 0x6e, 0x64, 0x53, 0x68, 0x6f, 0x77, 0x54, 0x65, 0x78, 0x74];
            assert(l@ == kind_label(k));
            push_all(out, &l);
        },
        OpKind::ShowTextWithParameters => {
            let l: [u8; 22] = [0x53, 0x68, 0x6f, 0x77, 0x54, 0x65, 0x78, 0x74, 0x57, 0x69, 0x74, 0x68, 0x50, 0x61, 0x72, 0x61, 0x6d, 0x65, 0x74, 0x65, 0x72, 0x73];
            assert(l@ == kind_label(k));
            push_all(out, &l);
        },
        OpKind::ShowTexts => {
            let l: [u8; 9] = [0x53, 0x68, 0x6f, 0x77, 0x54, 0x65, 0x78, 0x74, 0x73];
            assert(l@ == kind_label(k));
            push_all(out, &l);
        },
        OpKind::ColorGlyph => {
            let l: [u8; 10] = [0x43, 0x6f, 0x6c, 0x6f, 0x72, 0x47, 0x6c, 0x79, 0x70, 0x68];
            assert(l@ == kind_label(k));
            push_all(out, &l);
        },
        OpKind::ShapeGlyph => {
            let l: [u8; 10] = [0x53, 0x68, 0x61, 0x70, 0x65, 0x47, 0x6c, 0x79, 0x70, 0x68];
            assert(l@ == kind_label(k));
            push_all(out, &l);
        },
        OpKind::MarkedContentPoint => {
            let l: [u8; 18] = [0x4d, 0x61, 0x72, 0x6b, 0x65, 0x64, 0x43, 0x6f, 0x6e, 0x74, 0x65, 0x6e, 0x74, 0x50, 0x6f, 0x69, 0x6e, 0x74];
            assert(l@ == kind_label(k));
            push_all(out, &l);
        },
        OpKind::MarkedContentPointWithProperties => {
            let l: [u8; 32] = [0x4d, 0x61, 0x72, 0x6b, 0x65, 0x64, 0x43, 0x6f, 0x6e, 0x74, 0x65, 0x6e, 0x74, 0x50, 0x6f, 0x69, 0x6e, 0x74, 0x57, 0x69, 0x74, 0x68, 0x50, 0x72, 0x6f, 0x70, 0x65, 0x72, 0x74, 0x69, 0x65, 0x73];
            assert(l@ == kind_label(k));
            push_all(out, &l);
        },
        OpKind::BeginMarkedContent => {
            let l: [u8; 18] = [0x42, 0x65, 0x67, 0x69, 0x6e, 0x4d, 0x61, 0x72, 0x6b, 0x65, 0x64, 0x43, 0x6f, 0x6e, 0x74, 0x65, 0x6e, 0x74];
            assert(l@ == kind_label(k));
            push_all(out, &l);
        },
        OpKind::BeginMarkedContentWithProperties => {
            let l: [u8; 32] = [0x42, 0x65, 0x67, 0x69, 0x6e, 0x4d, 0x61, 0x72, 0x6b, 0x65, 0x64, 0x43, 0x6f, 0x6e, 0x74, 0x65, 0x6e, 0x74, 0x57, 0x69, 0x74, 0x68, 0x50, 0x72, 0x6f, 0x70, 0x65, 0x72, 0x74, 0x69, 0x65, 0x73];
            assert(l@ == kind_label(k));
            push_all(out, &l);
        },
        OpKind::EndMarkedContent => {
            let l: [u8; 16] = [0x45, 0x6e, 0x64, 0x4d, 0x61, 0x72, 0x6b, 0x65, 0x64, 0x43, 0x6f, 0x6e, 0x74, 0x65, 0x6e, 0x74];
            assert(l@ == kind_label(k));
            push_all(out, &l);
        },
    }
}

/// Append numbers separated by spaces.
pub fn push_numbers_text(out: &mut Vec<u8>, v: &[Number])
    ensures
        final(out)@ == old(out)@ + objects_text(nums_view(v@)),
{
    let ghost start = out@;
    let mut i: usize = 0;
    while i < v.len()
        invariant
            i <= v.len(),
            out@ == start + objects_text(nums_view(v@.subrange(0, i as int))),
        decreases v.len() - i,
    {
        if i > 0 {
            out.push(0x20);
        }
        push_number(out, &v[i]);
        proof {
            let p = nums_view(v@.subrange(0, i + 1));
            assert(p.drop_last() == nums_view(v@.subrange(0, i as int)));
            assert(p.last() == ObjectView::Number(v@[i as int]));
            assert(object_text(p.last()) == crate::number::number_text(v@[i as int]));
            if i == 0 {
                assert(p.len() == 1);
                assert(objects_text(p) == object_text(p[0]));
            } else {
                assert(objects_text(p) == objects_text(p.drop_last()) + seq![0x20u8] + object_text(p.last()));
            }
        }
        i = i + 1;
    }
    assert(v@.subrange(0, v.len() as int) == v@);
}

/// Append the text of an instruction.
#[verifier::rlimit(80)]
pub fn push_instruction_text(out: &mut Vec<u8>, ins: &TypedInstruction)
    ensures
        final(out)@ == old(out)@ + instruction_text(ins.view()),
{
    match ins {
        TypedInstruction::BeginCompatibility(_) => {
            push_label(out, OpKind::BeginCompatibility);
        },
        TypedInstruction::EndCompatibility(_) => {
            push_label(out, OpKind::EndCompatibility);
        },
        TypedInstruction::SaveState(_) => {
            push_label(out, OpKind::SaveState);
        },
        TypedInstruction::RestoreState(_) => {
            push_label(out, OpKind::RestoreState);
        },
        TypedInstruction::Transform(Transform(a, b, c, d, e, f)) => {
            push_label(out, OpKind::Transform);
            out.push(0x28);
            let v = [*a, *b, *c, *d, *e, *f];
            push_numbers_text(out, &v);
            out.push(0x29);
        },
        TypedInstruction::LineWidth(LineWidth(a)) => {
            push_label(out, OpKind::LineWidth);
            out.push(0x28);
            let v = [*a];
            push_numbers_text(out, &v);
            out.push(0x29);
        },
        TypedInstruction::LineCap(LineCap(a)) => {
            push_label(out, OpKind::LineCap);
            out.push(0x28);
            let v = [*a];
            push_numbers_text(out, &v);
            out.push(0x29);
        },
        TypedInstruction::LineJoin(LineJoin(a)) => {
            push_label(out, OpKind::LineJoin);
            out.push(0x28);
            let v = [*a];
            push_numbers_text(out, &v);
            out.push(0x29);
        },
        TypedInstruction::MiterLimit(MiterLimit(a)) => {
            push_label(out, OpKind::MiterLimit);
            out.push(0x28);
            let v = [*a];
            push_numbers_text(out, &v);
            out.push(0x29);
        },
        TypedInstruction::DashPattern(DashPattern(a, b)) => {
            push_label(out, OpKind::DashPattern);
            out.push(0x28);
            out.push(0x5b);
            push_objects_text(out, &a.0);
            out.push(0x5d);
            out.push(0x20);
            push_number(out, b);
            out.push(0x29);
            proof { lemma_objects_text_2(ObjectView::Array(a.view()), ObjectView::Number(*b)); }
        },
        TypedInstruction::RenderingIntent(RenderingIntent(a)) => {
            push_label(out, OpKind::RenderingIntent);
            out.push(0x28);
            push_name_text(out, a);
            out.push(0x29);
            proof { lemma_objects_text_1(ObjectView::Name(a.view())); }
        },
        TypedInstruction::FlatnessTolerance(FlatnessTolerance(a)) => {
            push_label(out, OpKind::FlatnessTolerance);
            out.push(0x28);
            let v = [*a];
            push_numbers_text(out, &v);
            out.push(0x29);
        },
        TypedInstruction::SetGraphicsState(SetGraphicsState(a)) => {
            push_label(out, OpKind::SetGraphicsState);
            out.push(0x28);
            push_name_text(out, a);
            out.push(0x29);
            proof { lemma_objects_text_1(ObjectView::Name(a.view())); }
        },
        TypedInstruction::MoveTo(MoveTo(a, b)) => {
            push_label(out, OpKind::MoveTo);
            out.push(0x28);
            let v = [*a, *b];
            push_numbers_text(out, &v);
            out.push(0x29);
        },
        TypedInstruction::LineTo(LineTo(a, b)) => {
            push_label(out, OpKind::LineTo);
            out.push(0x28);
            let v = [*a, *b];
            push_numbers_text(out, &v);
            out.push(0x29);
        },
        TypedInstruction::CubicTo(CubicTo(a, b, c, d, e, f)) => {
            push_label(out, OpKind::CubicTo);
            out.push(0x28);
            let v = [*a, *b, *c, *d, *e, *f];
            push_numbers_text(out, &v);
            out.push(0x29);
        },
        TypedInstruction::CubicStartTo(CubicStartTo(a, b, c, d)) => {
            push_label(out, OpKind::CubicStartTo);
            out.push(0x28);
            let v = [*a, *b, *c, *d];
            push_numbers_text(out, &v);
            out.push(0x29);
        },
        TypedInstruction::CubicEndTo(CubicEndTo(a, b, c, d)) => {
            push_label(out, OpKind::CubicEndTo);
            out.push(0x28);
            let v = [*a, *b, *c, *d];
            push_numbers_text(out, &v);
            out.push(0x29);
        },
        TypedInstruction::ClosePath(_) => {
            push_label(out, OpKind::ClosePath);
        },
        TypedInstruction::RectPath(RectPath(a, b, c, d)) => {
            push_label(out, OpKind::RectPath);
            out.push(0x28);
            let v = [*a, *b, *c, *d];
            push_numbers_text(out, &v);
            out.push(0x29);
        },
        TypedInstruction::StrokePath(_) => {
            push_label(out, OpKind::StrokePath);
        },
        TypedInstruction::CloseAndStrokePath(_) => {
            push_label(out, OpKind::CloseAndStrokePath);
        },
        TypedInstruction::FillPathNonZero(_) => {
            push_label(out, OpKind::FillPathNonZero);
        },
        TypedInstruction::FillPathNonZeroCompatibility(_) => {
            push_label(out, OpKind::FillPathNonZeroCompatibility);
        },
        TypedInstruction::FillPathEvenOdd(_) => {
            push_label(out, OpKind::FillPathEvenOdd);
        },
        TypedInstruction::FillAndStrokeNonZero(_) => {
            push_label(out, OpKind::FillAndStrokeNonZero);
        },
        TypedInstruction::FillAndStrokeEvenOdd(_) => {
            push_label(out, OpKind::FillAndStrokeEvenOdd);
        },
        TypedInstruction::CloseFillAndStrokeNonZero(_) => {
            push_label(out, OpKind::CloseFillAndStrokeNonZero);
        },
        TypedInstruction::CloseFillAndStrokeEvenOdd(_) => {
            push_label(out, OpKind::CloseFillAndStrokeEvenOdd);
        },
        TypedInstruction::EndPath(_) => {
            push_label(out, OpKind::EndPath);
        },
        TypedInstruction::ClipNonZero(_) => {
            push_label(out, OpKind::ClipNonZero);
        },
        TypedInstruction::ClipEvenOdd(_) => {
            push_label(out, OpKind::ClipEvenOdd);
        },
        TypedInstruction::ColorSpaceStroke(ColorSpaceStroke(a)) => {
            push_label(out, OpKind::ColorSpaceStroke);
            out.push(0x28);
            push_name_text(out, a);
            out.push(0x29);
            proof { lemma_objects_text_1(ObjectView::Name(a.view())); }
        },
        TypedInstruction::ColorSpaceNonStroke(ColorSpaceNonStroke(a)) => {
            push_label(out, OpKind::ColorSpaceNonStroke);
            out.push(0x28);
            push_name_text(out, a);
            out.push(0x29);
            proof { lemma_objects_text_1(ObjectView::Name(a.view())); }
        },
        TypedInstruction::StrokeColor(StrokeColor(a)) => {
            push_label(out, OpKind::StrokeColor);
            let v = a.as_slice();
            if v.len() > 0 {
                out.push(0x28);
                push_numbers_text(out, v);
                out.push(0x29);
            }
        },
        TypedInstruction::StrokeColorNamed(StrokeColorNamed(a, b)) => {
            push_label(out, OpKind::StrokeColorNamed);
            let v = a.as_slice();
            push_named_color_operands(out, v, b);
        },
        TypedInstruction::NonStrokeColor(NonStrokeColor(a)) => {
            push_label(out, OpKind::NonStrokeColor);
            let v = a.as_slice();
            if v.len() > 0 {
                out.push(0x28);
                push_numbers_text(out, v);
                out.push(0x29);
            }
        },
        TypedInstruction::NonStrokeColorNamed(NonStrokeColorNamed(a, b)) => {
            push_label(out, OpKind::NonStrokeColorNamed);
            let v = a.as_slice();
            push_named_color_operands(out, v, b);
        },
        TypedInstruction::StrokeColorDeviceGray(StrokeColorDeviceGray(a)) => {
            push_label(out, OpKind::StrokeColorDeviceGray);
            out.push(0x28);
            let v = [*a];
            push_numbers_text(out, &v);
            out.push(0x29);
        },
        TypedInstruction::NonStrokeColorDeviceGray(NonStrokeColorDeviceGray(a)) => {
            push_label(out, OpKind::NonStrokeColorDeviceGray);
            out.push(0x28);
            let v = [*a];
            push_numbers_text(out, &v);
            out.push(0x29);
        },
        TypedInstruction::StrokeColorDeviceRgb(StrokeColorDeviceRgb(a, b, c)) => {
            push_label(out, OpKind::StrokeColorDeviceRgb);
            out.push(0x28);
            let v = [*a, *b, *c];
            push_numbers_text(out, &v);
            out.push(0x29);
        },
        TypedInstruction::NonStrokeColorDeviceRgb(NonStrokeColorDeviceRgb(a, b, c)) => {
            push_label(out, OpKind::NonStrokeColorDeviceRgb);
            out.push(0x28);
            let v = [*a, *b, *c];
            push_numbers_text(out, &v);
            out.push(0x29);
        },
        TypedInstruction::StrokeColorCmyk(StrokeColorCmyk(a, b, c, d)) => {
            push_label(out, OpKind::StrokeColorCmyk);
            out.push(0x28);
            let v = [*a, *b, *c, *d];
            push_numbers_text(out, &v);
            out.push(0x29);
        },
        TypedInstruction::NonStrokeColorCmyk(NonStrokeColorCmyk(a, b, c, d)) => {
            push_label(out, OpKind::NonStrokeColorCmyk);
            out.push(0x28);
            let v = [*a, *b, *c, *d];
            push_numbers_text(out, &v);
            out.push(0x29);
        },
        TypedInstruction::Shading(Shading(a)) => {
            push_label(out, OpKind::Shading);
            out.push(0x28);
            push_name_text(out, a);
            out.push(0x29);
            proof { lemma_objects_text_1(ObjectView::Name(a.view())); }
        },
        TypedInstruction::XObject(XObject(a)) => {
            push_label(out, OpKind::XObject);
            out.push(0x28);
            push_name_text(out, a);
            out.push(0x29);
            proof { lemma_objects_text_1(ObjectView::Name(a.view())); }
        },
        TypedInstruction::InlineImage(InlineImage(a)) => {
            push_label(out, OpKind::InlineImage);
            out.push(0x28);
            out.push(0x3c);
            out.push(0x3c);
            push_entries_text(out, &a.dict.0);
            out.push(0x3e);
            out.push(0x3e);
            out.push(0x29);
        },
        TypedInstruction::CharacterSpacing(CharacterSpacing(a)) => {
            push_label(out, OpKind::CharacterSpacing);
            out.push(0x28);
            let v = [*a];
            push_numbers_text(out, &v);
            out.push(0x29);
        },
        TypedInstruction::WordSpacing(WordSpacing(a)) => {
            push_label(out, OpKind::WordSpacing);
            out.push(0x28);
            let v = [*a];
            push_numbers_text(out, &v);
            out.push(0x29);
        },
        TypedInstruction::HorizontalScaling(HorizontalScaling(a)) => {
            push_label(out, OpKind::HorizontalScaling);
            out.push(0x28);
            let v = [*a];
            push_numbers_text(out, &v);
            out.push(0x29);
        },
        TypedInstruction::TextLeading(TextLeading(a)) => {
            push_label(out, OpKind::TextLeading);
            out.push(0x28);
            let v = [*a];
            push_numbers_text(out, &v);
            out.push(0x29);
        },
        TypedInstruction::TextFont(TextFont(a, b)) => {
            push_label(out, OpKind::TextFont);
            out.push(0x28);
            push_name_text(out, a);
            out.push(0x20);
            push_number(out, b);
            out.push(0x29);
            proof { lemma_objects_text_2(ObjectView::Name(a.view()), ObjectView::Number(*b)); }
        },
        TypedInstruction::TextRenderingMode(TextRenderingMode(a)) => {
            push_label(out, OpKind::TextRenderingMode);
            out.push(0x28);
            let v = [*a];
            push_numbers_text(out, &v);
            out.push(0x29);
        },
        TypedInstruction::TextRise(TextRise(a)) => {
            push_label(out, OpKind::TextRise);
            out.push(0x28);
            let v = [*a];
            push_numbers_text(out, &v);
            out.push(0x29);
        },
        TypedInstruction::BeginText(_) => {
            push_label(out, OpKind::BeginText);
        },
        TypedInstruction::EndText(_) => {
            push_label(out, OpKind::EndText);
        },
        TypedInstruction::NextLine(NextLine(a, b)) => {
            push_label(out, OpKind::NextLine);
            out.push(0x28);
            let v = [*a, *b];
            push_numbers_text(out, &v);
            out.push(0x29);
        },
        TypedInstruction::NextLineAndSetLeading(NextLineAndSetLeading(a, b)) => {
            push_label(out, OpKind::NextLineAndSetLeading);
            out.push(0x28);
            let v = [*a, *b];
            push_numbers_text(out, &v);
            out.push(0x29);
        },
        TypedInstruction::SetTextMatrix(SetTextMatrix(a, b, c, d, e, f)) => {
            push_label(out, OpKind::SetTextMatrix);
            out.push(0x28);
            let v = [*a, *b, *c, *d, *e, *f];
            push_numbers_text(out, &v);
            out.push(0x29);
        },
        TypedInstruction::NextLineUsingLeading(_) => {
            push_label(out, OpKind::NextLineUsingLeading);
        },
        TypedInstruction::ShowText(ShowText(a)) => {
            push_label(out, OpKind::ShowText);
            out.push(0x28);
            push_string_text(out, a.0.as_slice());
            out.push(0x29);
            proof { lemma_objects_text_1(ObjectView::String(a.view())); }
        },
        TypedInstruction::NextLineAndShowText(NextLineAndShowText(a)) => {
            push_label(out, OpKind::NextLineAndShowText);
            out.push(0x28);
            push_string_text(out, a.0.as_slice());
            out.push(0x29);
            proof { lemma_objects_text_1(ObjectView::String(a.view())); }
        },
        TypedInstruction::ShowTextWithParameters(ShowTextWithParameters(a, b, c)) => {
            push_label(out, OpKind::ShowTextWithParameters);
            out.push(0x28);
            push_number(out, a);
            out.push(0x20);
            push_number(out, b);
            out.push(0x20);
            push_string_text(out, c.0.as_slice());
            out.push(0x29);
            proof { lemma_objects_text_3(ObjectView::Number(*a), ObjectView::Number(*b), ObjectView::String(c.view())); }
        },
        TypedInstruction::ShowTexts(ShowTexts(a)) => {
            push_label(out, OpKind::ShowTexts);
            out.push(0x28);
            out.push(0x5b);
            push_objects_text(out, &a.0);
            out.push(0x5d);
            out.push(0x29);
            proof { lemma_objects_text_1(ObjectView::Array(a.view())); }
        },
        TypedInstruction::ColorGlyph(ColorGlyph(a, b)) => {
            push_label(out, OpKind::ColorGlyph);
            out.push(0x28);
            let v = [*a, *b];
            push_numbers_text(out, &v);
            out.push(0x29);
        },
        TypedInstruction::ShapeGlyph(ShapeGlyph(a, b, c, d, e, f)) => {
            push_label(out, OpKind::ShapeGlyph);
            out.push(0x28);
            let v = [*a, *b, *c, *d, *e, *f];
            push_numbers_text(out, &v);
            out.push(0x29);
        },
        TypedInstruction::MarkedContentPoint(MarkedContentPoint(a)) => {
            push_label(out, OpKind::MarkedContentPoint);
            out.push(0x28);
            push_name_text(out, a);
            out.push(0x29);
            proof { lemma_objects_text_1(ObjectView::Name(a.view())); }
        },
        TypedInstruction::MarkedContentPointWithProperties(MarkedContentPointWithProperties(a, b)) => {
            push_label(out, OpKind::MarkedContentPointWithProperties);
            out.push(0x28);
            push_name_text(out, a);
            out.push(0x20);
            push_object_text(out, b);
            out.push(0x29);
            proof { lemma_objects_text_2(ObjectView::Name(a.view()), b.view()); }
        },
        TypedInstruction::BeginMarkedContent(BeginMarkedContent(a)) => {
            push_label(out, OpKind::BeginMarkedContent);
            out.push(0x28);
            push_name_text(out, a);
            out.push(0x29);
            proof { lemma_objects_text_1(ObjectView::Name(a.view())); }
        },
        TypedInstruction::BeginMarkedContentWithProperties(BeginMarkedContentWithProperties(a, b)) => {
            push_label(out, OpKind::BeginMarkedContentWithProperties);
            out.push(0x28);
            push_name_text(out, a);
            out.push(0x20);
            push_object_text(out, b);
            out.push(0x29);
            proof { lemma_objects_text_2(ObjectView::Name(a.view()), b.view()); }
        },
        TypedInstruction::EndMarkedContent(_) => {
            push_label(out, OpKind::EndMarkedContent);
        },
        TypedInstruction::Fallback(op) => {
            let l: [u8; 9] = [0x46, 0x61, 0x6c, 0x6c, 0x62, 0x61, 0x63, 0x6b, 0x28];
            assert(l@ == seq![0x46u8, 0x61, 0x6c, 0x6c, 0x62, 0x61, 0x63, 0x6b, 0x28]);
            push_all(out, &l);
            push_escaped(out, op.0.as_slice());
            out.push(0x29);
        },
    }
}

/// Append the operands of a named color, in parentheses when there are any:
/// the numbers, then the name.
fn push_named_color_operands(out: &mut Vec<u8>, v: &[Number], name: &Option<Name>)
    ensures
        final(out)@ == old(out)@ + if nums_view(v@).len() + name_part(*name).len() == 0 {
            Seq::<u8>::empty()
        } else {
            seq![0x28u8] + objects_text(nums_view(v@) + name_part(*name)) + seq![0x29u8]
        },
{
    match name {
        Some(n) => {
            out.push(0x28);
            push_numbers_text(out, v);
            if v.len() > 0 {
                out.push(0x20);
            }
            push_name_text(out, n);
            out.push(0x29);
            proof {
                let ops = nums_view(v@) + name_part(*name);
                assert(ops.drop_last() == nums_view(v@));
                assert(ops.last() == ObjectView::Name(n.view()));
                assert(object_text(ops.last()) == name_text(n.view()));
                if v.len() == 0 {
                    assert(ops.len() == 1);
                    assert(objects_text(ops) == object_text(ops[0]));
                } else {
                    assert(objects_text(ops) == objects_text(ops.drop_last()) + seq![0x20u8] + object_text(ops.last()));
                }
            }
        },
        None => {
            assert(nums_view(v@) + name_part(*name) == nums_view(v@));
            if v.len() > 0 {
                out.push(0x28);
                push_numbers_text(out, v);
                out.push(0x29);
            }
        },
    }
}

proof fn lemma_ascii_concat(a: Seq<u8>, b: Seq<u8>)
    requires
        is_ascii_seq(a),
        is_ascii_seq(b),
    ensures
        is_ascii_seq(a + b),
{
    assert forall|i: int| 0 <= i < (a + b).len() implies (a + b)[i] < 128 by {
        if i < a.len() {
            assert((a + b)[i] == a[i]);
        } else {
            assert((a + b)[i] == b[i - a.len()]);
        }
    }
}

pub proof fn lemma_instruction_text_ascii(iv: InstructionView)
    ensures
        is_ascii_seq(instruction_text(iv)),
{
    match iv {
        InstructionView::Typed(k, ops) => {
            lemma_kind_label_ascii(k);
            if ops.len() > 0 {
                lemma_objects_text_ascii(ops);
                lemma_ascii_concat(kind_label(k), seq![0x28u8]);
                lemma_ascii_concat(kind_label(k) + seq![0x28u8], objects_text(ops));
                lemma_ascii_concat(kind_label(k) + seq![0x28u8] + objects_text(ops), seq![0x29u8]);
            }
        },
        InstructionView::InlineImage(d, data) => {
            let k = OpKind::InlineImage;
            lemma_kind_label_ascii(k);
            lemma_object_text_ascii(ObjectView::Dict(d));
            let t = object_text(ObjectView::Dict(d));
            lemma_ascii_concat(kind_label(k), seq![0x28u8]);
            lemma_ascii_concat(kind_label(k) + seq![0x28u8], t);
            lemma_ascii_concat(kind_label(k) + seq![0x28u8] + t, seq![0x29u8]);
        },
        InstructionView::Fallback(t) => {
            let f = seq![0x46u8, 0x61, 0x6c, 0x6c, 0x62, 0x61, 0x63, 0x6b, 0x28];
            lemma_escaped_ascii(t);
            lemma_ascii_concat(f, escaped_bytes(t));
            lemma_ascii_concat(f + escaped_bytes(t), seq![0x29u8]);
        },
    }
}

impl TypedInstruction {
    /// The text of the instruction.
    pub fn to_string(&self) -> (r: String)
        ensures
            r@ == instruction_text(self.view()).map_values(|b: u8| b as char),
    {
        let mut out: Vec<u8> = Vec::new();
        push_instruction_text(&mut out, self);
        proof {
            lemma_instruction_text_ascii(self.view());
        }
        from_utf8_ascii(out)
    }
}

} // verus!
