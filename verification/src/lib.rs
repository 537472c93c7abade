//! Front end of a class-description language for game development.
//!
//! A source text declares classes with typed fields, methods, base classes
//! and properties. The grammar (`syntax`, `grammar`) turns the text into a
//! tree of tagged fragments (`tree`); the parser (`meaning`, `parser`) builds
//! classes from the tree (`model`) and reports failures with their place
//! (`error`); normalization (`normalize`) flattens nested blocks of
//! declarations and hands the properties of the blocks down to the fields
//! and methods. `output` and `driver` hold what the generating scripts write
//! with. What holds of all of this together is proved in `laws`, `spans` and
//! `soundness`.

pub mod text;
pub mod tree;
pub mod syntax;
pub mod grammar;
pub mod ast;
pub mod error;
pub mod literal;
pub mod model;
pub mod normalize;
pub mod meaning;
pub mod parser;
pub mod output;
pub mod driver;
pub mod defaults;
pub mod laws;
pub mod spans;
pub mod soundness;
