//! The data carried by the tracker: statuses, results, attributes,
//! categories, products and snapshot records.

pub mod attribute;
pub mod category;
pub mod product;
pub mod upload_result;
