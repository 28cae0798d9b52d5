//! What is recovered of a received document.

use vstd::prelude::*;

verus! {

/// A picture of gray pixels, row by row: as many bytes as the width times the
/// height.
#[derive(Debug)]
pub struct GrayImage {
    width: u32,
    height: u32,
    pixels: Vec<u8>,
}

impl GrayImage {
    #[verifier::type_invariant]
    spec fn is_filled(self) -> bool {
        self.pixels@.len() == self.width * self.height
    }

    /// The width in pixels.
    pub closed spec fn spec_width(&self) -> u32 {
        self.width
    }

    /// The height in pixels.
    pub closed spec fn spec_height(&self) -> u32 {
        self.height
    }

    /// The pixels, row by row.
    pub closed spec fn spec_pixels(&self) -> Seq<u8> {
        self.pixels@
    }

    /// A picture made of the given pixels, if there are exactly as many as it
    /// takes.
    pub fn from_raw(width: u32, height: u32, pixels: Vec<u8>) -> (image: Option<Self>)
        ensures
            image is Some <==> pixels@.len() == width * height,
            image matches Some(image) ==> image.spec_width() == width && image.spec_height()
                == height && image.spec_pixels() == pixels@,
    {
        assert(width * height <= u32::MAX * u32::MAX) by (nonlinear_arith)
            requires
                0 <= width <= u32::MAX,
                0 <= height <= u32::MAX,
        ;
        let area: u64 = width as u64 * height as u64;
        if pixels.len() as u64 == area {
            Some(GrayImage { width, height, pixels })
        } else {
            None
        }
    }

    /// A black picture.
    pub fn new(width: u32, height: u32) -> (image: Self)
        requires
            width * height <= usize::MAX,
        ensures
            image.spec_width() == width,
            image.spec_height() == height,
            image.spec_pixels() == Seq::new((width * height) as nat, |i: int| 0u8),
    {
        assert(width * height <= u32::MAX * u32::MAX) by (nonlinear_arith)
            requires
                0 <= width <= u32::MAX,
                0 <= height <= u32::MAX,
        ;
        let area: u64 = width as u64 * height as u64;
        let pixels: Vec<u8> = vec![0u8; area as usize];
        assert(pixels@ =~= Seq::new((width * height) as nat, |i: int| 0u8));
        GrayImage { width, height, pixels }
    }

    /// The width in pixels.
    pub fn width(&self) -> (width: u32)
        ensures
            width == self.spec_width(),
    {
        self.width
    }

    /// The height in pixels.
    pub fn height(&self) -> (height: u32)
        ensures
            height == self.spec_height(),
    {
        self.height
    }

    /// The pixels, row by row.
    pub fn pixels(&self) -> (pixels: &[u8])
        ensures
            pixels@ == self.spec_pixels(),
            pixels@.len() == self.spec_width() * self.spec_height(),
    {
        proof {
            use_type_invariant(self);
        }
        self.pixels.as_slice()
    }
}

/// How much of a page was recovered.
#[derive(Debug, Clone, Copy, PartialEq, Eq, Structural)]
pub enum FaxPageCompleteness {
    /// All of it
    Complete,
    /// Fewer rows than the page declares
    Partial { decoded_rows: u32, declared_rows: u32 },
}

/// A page that was recovered, as a whole or in part.
#[derive(Debug)]
pub struct DecodedFaxPage {
    /// The number of the page in the document, from 1
    pub page_number: usize,
    pub image: GrayImage,
    pub completeness: FaxPageCompleteness,
}

/// A page that could not be used.
#[derive(Debug)]
pub struct OmittedFaxPage {
    /// The number of the page in the document, from 1
    pub page_number: usize,
    pub reason: String,
}

/// What was recovered of a document.
#[derive(Debug)]
pub struct DecodedFax {
    pub pages: Vec<DecodedFaxPage>,
    pub omitted_pages: Vec<OmittedFaxPage>,
}

impl DecodedFax {
    /// Whether something of the document is missing: a page, or a part of one.
    pub open spec fn lacks_content(self) -> bool {
        ||| self.omitted_pages@.len() > 0
        ||| exists|i: int|
            0 <= i < self.pages@.len() && (#[trigger] self.pages@[i]).completeness is Partial
    }

    /// Whether something of the document is missing.
    pub fn is_incomplete(&self) -> (incomplete: bool)
        ensures
            incomplete == self.lacks_content(),
    {
        if self.omitted_pages.len() > 0 {
            return true;
        }
        let mut i: usize = 0;
        while i < self.pages.len()
            invariant
                i <= self.pages.len(),
                forall|k: int|
                    0 <= k < i ==> !((#[trigger] self.pages@[k]).completeness is Partial),
                self.omitted_pages@.len() == 0,
            decreases self.pages.len() - i,
        {
            match self.pages[i].completeness {
                FaxPageCompleteness::Partial { .. } => {
                    assert(self.pages@[i as int].completeness is Partial);
                    return true;
                },
                FaxPageCompleteness::Complete => {},
            }
            i += 1;
        }
        false
    }
}

/// A single page that is there in part, wherever it stands, makes a fax
/// incomplete, and so does a single omitted page; a fax of whole pages with
/// none omitted is complete.
pub proof fn law_any_missing_part_counts(fax: DecodedFax, i: int)
    ensures
        0 <= i < fax.pages@.len() && fax.pages@[i].completeness is Partial
            ==> fax.lacks_content(),
        fax.omitted_pages@.len() > 0 ==> fax.lacks_content(),
        fax.omitted_pages@.len() == 0 && (forall|k: int|
            0 <= k < fax.pages@.len() ==> (#[trigger] fax.pages@[k]).completeness is Complete)
            ==> !fax.lacks_content(),
{
}

} // verus!
