//! Conditions of CMIS queries.
use vstd::prelude::*;

verus! {

/// The condition that the object has the given id.
pub fn id(object_id: &str) -> (res: String)
    ensures
        res@ == "cmis:objectId='"@ + object_id@ + "'"@,
{
    let mut r = String::from_str("cmis:objectId='");
    r.append(object_id);
    r.append("'");
    r
}

/// The condition that the object has the given name.
pub fn name(folder: &str) -> (res: String)
    ensures
        res@ == "cmis:name='"@ + folder@ + "'"@,
{
    let mut r = String::from_str("cmis:name='");
    r.append(folder);
    r.append("'");
    r
}

/// The condition that the object lies directly in the folder with the given id.
pub fn in_folder(folder: &str) -> (res: String)
    ensures
        res@ == "in_folder('"@ + folder@ + "')"@,
{
    let mut r = String::from_str("in_folder('");
    r.append(folder);
    r.append("')");
    r
}

/// The negation of a condition.
pub fn not(cond: &str) -> (res: String)
    ensures
        res@ == "not ("@ + cond@ + ")"@,
{
    let mut r = String::from_str("not (");
    r.append(cond);
    r.append(")");
    r
}

/// The conjunction of two conditions.
pub fn and(left: &str, right: &str) -> (res: String)
    ensures
        res@ == "("@ + left@ + ") and ("@ + right@ + ")"@,
{
    let mut r = String::from_str("(");
    r.append(left);
    r.append(") and (");
    r.append(right);
    r.append(")");
    r
}

/// The disjunction of two conditions.
pub fn or(left: &str, right: &str) -> (res: String)
    ensures
        res@ == "("@ + left@ + ") or ("@ + right@ + ")"@,
{
    let mut r = String::from_str("(");
    r.append(left);
    r.append(") or (");
    r.append(right);
    r.append(")");
    r
}

} // verus!
