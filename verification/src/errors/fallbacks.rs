//! Minimal HTML used when the themed pages fail to render.

use vstd::prelude::*;

verus! {

pub const NOT_FOUND: &'static str = "<!DOCTYPE html><html lang=\"en\"><meta charset=\"utf-8\"><title>Page not found</title><p>Not found.</p>";

pub const INTERNAL_SERVER_ERROR: &'static str = "<!DOCTYPE html><html lang=\"en\"><meta charset=\"utf-8\"><title>Error</title><p>Internal Server Error.</p>";

pub const FORBIDDEN: &'static str = "<!DOCTYPE html><html lang=\"en\"><meta charset=\"utf-8\"><title>Access denied</title><p>Forbidden.</p>";

pub const METHOD_NOT_ALLOWED: &'static str = "<!DOCTYPE html><html lang=\"en\"><meta charset=\"utf-8\"><title>Method not allowed</title><p>Method not allowed.</p>";

} // verus!
