pub mod errors;
pub mod lambda;
pub mod secrets;
pub mod s3;
pub mod cloudwatch;
pub mod dynamodb;
