//! An uploaded file held in memory, read through a cursor.
use vstd::prelude::*;

verus! {

#[derive(Clone, Debug)]
pub struct PyUploadFile {
    pub filename: Option<String>,
    pub content_type: Option<String>,
    pub size: Option<u64>,
    pub file_content: Vec<u8>,
    pub cursor: usize,
}

impl PyUploadFile {
    pub open spec fn content(&self) -> Seq<u8> {
        self.file_content@
    }

    pub open spec fn position(&self) -> nat {
        self.cursor as nat
    }

    /// An empty file with the given metadata.
    pub fn new(filename: Option<String>, content_type: Option<String>, size: Option<u64>) -> (r: Self)
        ensures
            r.filename == filename,
            r.content_type == content_type,
            r.size == size,
            r.content().len() == 0,
            r.position() == 0,
    {
        PyUploadFile { filename, content_type, size, file_content: Vec::new(), cursor: 0 }
    }

    /// Reads up to `size` bytes from the cursor (all that is left when
    /// `size` is absent or negative) and moves the cursor past them. A cursor
    /// beyond the end reads nothing.
    pub fn read(&mut self, size: Option<i64>) -> (r: Vec<u8>)
        ensures
            ({
                let len = old(self).content().len();
                let start = if old(self).position() < len {
                    old(self).position()
                } else {
                    len
                };
                let end = match size {
                    Some(s) => if s < 0 || start + s > len {
                        len
                    } else {
                        (start + s) as nat
                    },
                    None => len,
                };
                &&& r@ == old(self).content().subrange(start as int, end as int)
                &&& final(self).position() == end
            }),
            final(self).content() == old(self).content(),
            final(self).filename == old(self).filename,
            final(self).content_type == old(self).content_type,
            final(self).size == old(self).size,
    {
        let len = self.file_content.len();
        let start = if self.cursor < len {
            self.cursor
        } else {
            len
        };
        let end = match size {
            Some(s) => if s < 0 || (s as u64) > ((len - start) as u64) {
                len
            } else {
                start + s as usize
            },
            None => len,
        };
        let mut out: Vec<u8> = Vec::new();
        let mut i = start;
        while i < end
            invariant
                start <= i <= end <= len,
                len == self.file_content@.len(),
                out@ == self.file_content@.subrange(start as int, i as int),
            decreases end - i,
        {
            out.push(self.file_content[i]);
            i = i + 1;
            assert(out@ =~= self.file_content@.subrange(start as int, i as int));
        }
        self.cursor = end;
        out
    }

    /// Appends bytes to the end of the content and records the new size.
    pub fn write(&mut self, data: &Vec<u8>)
        requires
            old(self).content().len() + data@.len() <= u64::MAX,
        ensures
            final(self).content() == old(self).content() + data@,
            final(self).size == Some(final(self).content().len() as u64),
            final(self).position() == old(self).position(),
            final(self).filename == old(self).filename,
            final(self).content_type == old(self).content_type,
    {
        let mut i: usize = 0;
        let ghost before = self.file_content@;
        while i < data.len()
            invariant
                i <= data@.len(),
                self.file_content@ == before + data@.take(i as int),
                before.len() + data@.len() <= u64::MAX,
                self.cursor == old(self).cursor,
                self.filename == old(self).filename,
                self.content_type == old(self).content_type,
            decreases data@.len() - i,
        {
            self.file_content.push(data[i]);
            i = i + 1;
            assert(self.file_content@ =~= before + data@.take(i as int));
        }
        assert(data@.take(i as int) =~= data@);
        self.size = Some(self.file_content.len() as u64);
    }

    /// Moves the cursor to `offset`; a negative offset moves it to the start,
    /// one beyond the address range to its end.
    pub fn seek(&mut self, offset: i64)
        ensures
            final(self).position() == (if offset < 0 {
                0
            } else if offset > usize::MAX {
                usize::MAX as nat
            } else {
                offset as nat
            }),
            final(self).content() == old(self).content(),
            final(self).size == old(self).size,
            final(self).filename == old(self).filename,
            final(self).content_type == old(self).content_type,
    {
        self.cursor = if offset < 0 {
            0
        } else if offset as u64 > usize::MAX as u64 {
            usize::MAX
        } else {
            offset as usize
        };
    }
}

} // verus!
