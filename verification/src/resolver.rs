//! Name resolution context a parser carries through one file: the imports in
//! scope, the generic parameters currently bound, and the enclosing element.

use vstd::prelude::*;
use crate::util::table_has;
use crate::util::table_find;

verus! {

/// A type as it appears in source, before the directory has resolved it.
#[derive(Debug)]
pub enum UnparsedType {
    /// A plain name.
    Basic(String),
    /// A name applied to type arguments.
    Generic(Box<UnparsedType>, Vec<UnparsedType>),
}

/// The per-file resolution context: which imports are visible, which generic
/// parameters are in scope, and the parent element's name.
#[derive(Debug)]
pub struct ImportNameResolver {
    /// Modules whose names are in scope, the file's own module first.
    pub imports: Vec<String>,
    /// Generic parameters in scope, each with its declared bounds.
    pub generics: Vec<(String, Vec<UnparsedType>)>,
    /// The name of the element the parser is currently inside, if any.
    pub parent: Option<String>,
    /// Counter for ids handed out while parsing this file.
    pub last_id: u32,
}

impl ImportNameResolver {
    pub fn new(base: String) -> (r: Self)
        ensures
            r.imports@.len() == 1,
            r.imports@[0] == base,
            r.generics@.len() == 0,
            r.parent is None,
            r.last_id == 0,
    {
        ImportNameResolver {
            imports: vec![base],
            generics: Vec::new(),
            parent: None,
            last_id: 0,
        }
    }

    pub fn imports(&self) -> (r: &Vec<String>)
        ensures
            r == &self.imports,
    {
        &self.imports
    }

    /// The bounds declared for the generic parameter `name`, if it is in scope.
    pub fn generic(&self, name: &String) -> (r: Option<&Vec<UnparsedType>>)
        ensures
            r is Some <==> table_has(self.generics@, name@),
            match r {
                Some(v) => exists|i: int|
                    0 <= i < self.generics@.len() && self.generics@[i].0@ == name@
                        && v == &self.generics@[i].1,
                None => true,
            },
    {
        match table_find(&self.generics, name) {
            Some(i) => Some(&self.generics[i].1),
            None => None,
        }
    }

    pub fn generics(&self) -> (r: &Vec<(String, Vec<UnparsedType>)>)
        ensures
            r == &self.generics,
    {
        &self.generics
    }
}

} // verus!
