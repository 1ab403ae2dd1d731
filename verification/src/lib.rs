//! Verified core of a PDF content and image pipeline.
#![allow(unused_imports)]

pub mod chars;
pub mod decimal;
pub mod number;
pub mod object;
pub mod lexer;
pub mod operands;
pub mod stack;
pub mod ops;
pub mod content;
pub mod reader;
pub mod pixels;
pub mod image;
pub mod transfer;
pub mod bits;
pub mod decode;
pub mod resize;
pub mod render;
pub mod function;
pub mod color;
pub mod icc;
pub mod text;
pub mod image_dict;
pub mod lookup;
