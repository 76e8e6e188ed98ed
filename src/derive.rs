use vstd::prelude::*;
use vstd::string::StringExecFns;

verus! {

/// Generator of the `Value` and proxy impls for a host record type.
pub struct Compiler {
    pub inside_crate: bool,
}

/// One attribute of an item: its path and the text of its tokens.
pub struct AttrInfo {
    pub path: String,
    pub tokens: String,
}

/// Whether the attributes carry `repr(C)`.
pub open spec fn has_repr_c(attrs: Seq<AttrInfo>) -> bool {
    exists|i: int|
        0 <= i < attrs.len() && (#[trigger] attrs[i]).path@ == "repr"@ && attrs[i].tokens@
            == "(C)"@
}

impl Compiler {
    pub fn new(inside_crate: bool) -> (r: Self)
        ensures
            r.inside_crate == inside_crate,
    {
        Compiler { inside_crate }
    }

    /// The path under which generated code reaches the language module.
    pub fn crate_path(&self) -> (r: String)
        ensures
            self.inside_crate ==> r@ == "crate::lang"@,
            !self.inside_crate ==> r@ == "luisa_compute::lang"@,
    {
        if self.inside_crate {
            String::from_str("crate::lang")
        } else {
            String::from_str("luisa_compute::lang")
        }
    }

    /// Whether a record type is laid out as in C, which registration demands.
    pub fn check_repr_c(&self, attributes: &Vec<AttrInfo>) -> (r: bool)
        ensures
            r == has_repr_c(attributes@),
    {
        let repr = String::from_str("repr");
        let c = String::from_str("(C)");
        let mut has_repr_c_attr = false;
        let mut i: usize = 0;
        while i < attributes.len()
            invariant
                0 <= i <= attributes@.len(),
                repr@ == "repr"@,
                c@ == "(C)"@,
                has_repr_c_attr == exists|j: int|
                    0 <= j < i && (#[trigger] attributes@[j]).path@ == "repr"@
                        && attributes@[j].tokens@ == "(C)"@,
            decreases attributes@.len() - i,
        {
            let a = &attributes[i];
            if a.path == repr && a.tokens == c {
                has_repr_c_attr = true;
            }
            i = i + 1;
        }
        has_repr_c_attr
    }

    /// Names of the two proxy types of record `name`: its `Expr` proxy and
    /// its `Var` proxy.
    pub fn proxy_names(&self, name: &str) -> (r: (String, String))
        ensures
            r.0@ == name@ + "Expr"@,
            r.1@ == name@ + "Var"@,
    {
        (String::from_str(name).concat("Expr"), String::from_str(name).concat("Var"))
    }
}

} // verus!
