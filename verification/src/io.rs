//! The image as a plain text PPM file.

use vstd::prelude::*;
use vstd::std_specs::convert::FromSpecImpl;

verus! {

/// `std::io::Error`. The library carries such a value and reads nothing of
/// it but its text.
#[verifier::external_type_specification]
#[verifier::external_body]
pub struct ExIoError(std::io::Error);

/// Why an image was not written.
#[derive(Debug)]
pub enum WriteImageError {
    /// The file could not be written.
    Io(std::io::Error),
    /// There are not as many pixels as the size asks for.
    VecLen(String),
}

impl From<std::io::Error> for WriteImageError {
    fn from(error: std::io::Error) -> (r: WriteImageError) {
        WriteImageError::Io(error)
    }
}

impl FromSpecImpl<std::io::Error> for WriteImageError {
    open spec fn obeys_from_spec() -> bool {
        true
    }

    open spec fn from_spec(error: std::io::Error) -> WriteImageError {
        WriteImageError::Io(error)
    }
}

/// `to_string` of a `std::io::Error`: the text that its `Display` writes.
/// Nothing is claimed of the text, which may come from the operating
/// system.
#[verifier::external_body]
fn io_error_text(error: &std::io::Error) -> String {
    error.to_string()
}

impl WriteImageError {
    /// What went wrong, in words: the text of the I/O error, or the message
    /// that the error carries.
    pub fn message(&self) -> (r: String)
        ensures
            self matches WriteImageError::VecLen(s) ==> r@ == s@,
    {
        match self {
            WriteImageError::Io(e) => io_error_text(e),
            WriteImageError::VecLen(s) => s.clone(),
        }
    }
}

/// The ASCII code of a space.
pub const SPACE: u8 = 32;

/// The ASCII code of a line feed.
pub const NEWLINE: u8 = 10;

/// The ASCII code of the digit 0.
pub const ZERO: u8 = 48;

/// The decimal digits of `n` in ASCII, without leading zeros.
pub open spec fn decimal(n: nat) -> Seq<u8>
    decreases n,
{
    if n < 10 {
        seq![(ZERO + n) as u8]
    } else {
        decimal(n / 10).push((ZERO + n % 10) as u8)
    }
}

/// The first line of the file: the letter P and the digit 3.
pub open spec fn magic() -> Seq<u8> {
    seq![80u8, 51u8, NEWLINE]
}

/// The head of the file: the magic number, width and height, and the
/// largest value of a channel, 255.
pub open spec fn header(w: nat, h: nat) -> Seq<u8> {
    magic() + decimal(w) + seq![SPACE] + decimal(h) + seq![NEWLINE] + decimal(255) + seq![NEWLINE]
}

/// The line of one pixel: red, green and blue with a space between.
pub open spec fn line(c: (u8, u8, u8)) -> Seq<u8> {
    decimal(c.0 as nat) + seq![SPACE] + decimal(c.1 as nat) + seq![SPACE] + decimal(c.2 as nat)
        + seq![NEWLINE]
}

/// The lines of the pixels, in their order.
pub open spec fn lines(colors: Seq<(u8, u8, u8)>) -> Seq<u8>
    decreases colors.len(),
{
    if colors.len() == 0 {
        Seq::empty()
    } else {
        lines(colors.drop_last()) + line(colors.last())
    }
}

/// The whole file.
pub open spec fn ppm(w: nat, h: nat, colors: Seq<(u8, u8, u8)>) -> Seq<u8> {
    header(w, h) + lines(colors)
}

fn push_decimal(out: &mut Vec<u8>, n: usize)
    ensures
        final(out)@ == old(out)@ + decimal(n as nat),
    decreases n,
{
    if n >= 10 {
        push_decimal(out, n / 10);
    }
    let digit: u8 = (n % 10) as u8;
    out.push(ZERO + digit);
    assert(final(out)@ =~= old(out)@ + decimal(n as nat));
}

fn push_line(out: &mut Vec<u8>, c: (u8, u8, u8))
    ensures
        final(out)@ == old(out)@ + line(c),
{
    push_decimal(out, c.0 as usize);
    out.push(SPACE);
    push_decimal(out, c.1 as usize);
    out.push(SPACE);
    push_decimal(out, c.2 as usize);
    out.push(NEWLINE);
    assert(final(out)@ =~= old(out)@ + line(c));
}

/// Writes the image as a plain text PPM file into a vector of bytes.
/// `colors` holds the pixels row by row from the top. Fails where their
/// number is not width times height.
pub fn write_image(size: (usize, usize), colors: Vec<(u8, u8, u8)>) -> (r: Result<
    Vec<u8>,
    WriteImageError,
>)
    ensures
        r is Ok <==> colors@.len() == size.0 * size.1,
        r matches Ok(bytes) ==> bytes@ == ppm(size.0 as nat, size.1 as nat, colors@),
        r matches Err(e) ==> e matches WriteImageError::VecLen(s) && s@
            == "The length of the colors is not enough"@,
{
    let len = colors.len();
    let fits = match size.0.checked_mul(size.1) {
        Some(n) => len == n,
        None => false,
    };
    if fits {
        let mut out: Vec<u8> = Vec::new();
        out.push(80);
        out.push(51);
        out.push(NEWLINE);
        push_decimal(&mut out, size.0);
        out.push(SPACE);
        push_decimal(&mut out, size.1);
        out.push(NEWLINE);
        push_decimal(&mut out, 255);
        out.push(NEWLINE);
        assert(out@ =~= header(size.0 as nat, size.1 as nat));
        let mut i: usize = 0;
        while i < colors.len()
            invariant
                i <= colors.len(),
                colors@.len() == size.0 * size.1,
                out@ == header(size.0 as nat, size.1 as nat) + lines(colors@.take(i as int)),
            decreases colors.len() - i,
        {
            push_line(&mut out, colors[i]);
            assert(colors@.take(i + 1).drop_last() =~= colors@.take(i as int));
            assert(out@ =~= header(size.0 as nat, size.1 as nat) + lines(colors@.take(i + 1)));
            i += 1;
        }
        assert(colors@.take(i as int) =~= colors@);
        Ok(out)
    } else {
        Err(WriteImageError::VecLen("The length of the colors is not enough".to_owned()))
    }
}

} // verus!
