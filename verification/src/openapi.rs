//! The OpenAPI generator's document: its shape and the file it goes to.
use vstd::prelude::*;

verus! {

/// A property type of a class.
#[derive(Debug)]
pub struct OpenApiTypeDef {
    pub kind: String,
    pub format: String,
}

/// A class schema.
#[derive(Debug)]
pub struct OpenApiClassDef {
    pub name: String,
    pub title: String,
    pub description: String,
    pub kind: String,
    /// Properties by name, in insertion order.
    pub properties: Vec<(String, OpenApiTypeDef)>,
}

/// An operation of a path.
#[derive(Debug)]
pub struct OpenApiMethodDef {
    pub request_body: String,
}

/// The OpenAPI document: paths (each with its methods) and class schemas,
/// by name, in insertion order.
#[derive(Debug)]
pub struct OpenApiSchema {
    pub paths: Vec<(String, Vec<(String, OpenApiMethodDef)>)>,
    pub schemas: Vec<(String, OpenApiClassDef)>,
}

/// The document the generator writes: no paths and no schemas.
pub fn generated_schema() -> (res: OpenApiSchema)
    ensures
        res.paths@.len() == 0,
        res.schemas@.len() == 0,
{
    OpenApiSchema { paths: Vec::new(), schemas: Vec::new() }
}

/// The name of the generated file.
pub fn generated_file_name() -> (res: String)
    ensures
        res@ == "openapi.yaml"@,
{
    "openapi.yaml".to_owned()
}

/// The comment block that heads the OpenAPI document the generator writes.
pub fn content_prefix() -> (res: &'static str)
    ensures
        res@ == "\n\
###############################################################################\n\
#\n\
#  Welcome to Baml! To use this generated code, please run the following:\n\
#\n\
#  $ openapi-generator generate -i openapi.yaml -g <language> -o <output_dir>\n\
#\n\
###############################################################################\n\
\n\
# This file was generated by BAML: please do not edit it. Instead, edit the\n\
# BAML files and re-generate this code.\n\
\n        "@,
{
    "\n\
###############################################################################\n\
#\n\
#  Welcome to Baml! To use this generated code, please run the following:\n\
#\n\
#  $ openapi-generator generate -i openapi.yaml -g <language> -o <output_dir>\n\
#\n\
###############################################################################\n\
\n\
# This file was generated by BAML: please do not edit it. Instead, edit the\n\
# BAML files and re-generate this code.\n\
\n        "
}

} // verus!
