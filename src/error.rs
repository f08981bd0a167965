use vstd::prelude::*;

verus! {

/// The failures that the service reports; each maps to one HTTP status.
#[derive(Debug, Clone, Copy, PartialEq, Eq, Structural)]
pub enum UserError {
    Unauthorised,
    UserNotExists,
    UserAlreadyExists,
    InternalServerError,
    WrongEmailOrPassword,
    WrongInfo,
}

/// The HTTP status code that stands for each error kind.
pub open spec fn status_of(e: UserError) -> u16 {
    match e {
        UserError::UserNotExists => 400,
        UserError::UserAlreadyExists => 406,
        UserError::InternalServerError => 500,
        UserError::WrongEmailOrPassword => 400,
        UserError::Unauthorised => 401,
        UserError::WrongInfo => 406,
    }
}

impl UserError {
    /// The status code that the boundary answers with for this error.
    pub fn status_code(&self) -> (r: u16)
        ensures
            r == status_of(*self),
    {
        match *self {
            UserError::UserNotExists => 400,
            UserError::UserAlreadyExists => 406,
            UserError::InternalServerError => 500,
            UserError::WrongEmailOrPassword => 400,
            UserError::Unauthorised => 401,
            UserError::WrongInfo => 406,
        }
    }

    /// The human-readable message that accompanies this error.
    pub fn message(&self) -> (r: &'static str)
        ensures
            *self == UserError::Unauthorised ==> r@ == "Unauthorised access. Please signup or login."@,
            *self == UserError::UserNotExists ==> r@ == "User doesn't exist!"@,
            *self == UserError::UserAlreadyExists ==> r@ == "User already exists!"@,
            *self == UserError::InternalServerError ==> r@ == "Something went wrong! Please try again later."@,
            *self == UserError::WrongEmailOrPassword ==> r@ == "Wrong Email or Password. PLease Try with the valid credentials."@,
            *self == UserError::WrongInfo ==> r@ == "Something's wrong with your request's info! Please check and try again."@,
    {
        match *self {
            UserError::Unauthorised => "Unauthorised access. Please signup or login.",
            UserError::UserNotExists => "User doesn't exist!",
            UserError::UserAlreadyExists => "User already exists!",
            UserError::InternalServerError => "Something went wrong! Please try again later.",
            UserError::WrongEmailOrPassword => "Wrong Email or Password. PLease Try with the valid credentials.",
            UserError::WrongInfo => "Something's wrong with your request's info! Please check and try again.",
        }
    }
}

} // verus!
