//! The frame arena: the allocator that every generated program carries.

use crate::codegen::CodeGenerator;
use vstd::prelude::*;

verus! {

/// The frame arena as it is generated: a bump allocator over blocks of one
/// mebibyte, with `alloc_array<T>(count)` to allocate and `reset()` to give
/// everything back at once.
pub const FRAME_ARENA_SOURCE: &'static str = "// Frame-Scoped Memory Allocator (FrameArena)
// Automatically frees all allocations at frame end
class FrameArena {
private:
    struct Block {
        void* ptr;
        size_t size;
    };
    std::vector<Block> blocks;
    size_t current_offset;
    static constexpr size_t BLOCK_SIZE = 1024 * 1024; // 1MB blocks
    std::vector<uint8_t> current_block;

public:
    FrameArena() : current_offset(0) {
        current_block.resize(BLOCK_SIZE);
    }

    ~FrameArena() {
        // All memory is automatically freed when blocks go out of scope
    }

    template<typename T>
    std::vector<T> alloc_array(size_t count) {
        size_t size_needed = count * sizeof(T);
        size_t aligned_size = (size_needed + alignof(T) - 1) & ~(alignof(T) - 1);
        
        // Check if we need a new block
        if (current_offset + aligned_size > current_block.size()) {
            // Save current block
            blocks.push_back({current_block.data(), current_block.size()});
            // Allocate new block
            current_block.resize(BLOCK_SIZE);
            current_offset = 0;
        }
        
        // Allocate from current block
        void* ptr = current_block.data() + current_offset;
        current_offset += aligned_size;
        
        // Construct vector with custom allocator that uses our memory
        std::vector<T> result;
        result.reserve(count);
        for (size_t i = 0; i < count; ++i) {
            new (static_cast<T*>(ptr) + i) T();
            result.push_back(*static_cast<T*>(ptr) + i);
        }
        
        return result;
    }

    void reset() {
        // Reset for next frame
        blocks.clear();
        current_offset = 0;
        current_block.resize(BLOCK_SIZE);
    }
};

";

/// The generated text of the frame arena.
pub open spec fn spec_frame_arena_text() -> Seq<char> {
    FRAME_ARENA_SOURCE@
}

impl CodeGenerator {
    /// The generated text of the frame arena.
    pub fn generate_frame_arena(&self) -> (r: String)
        ensures
            r@ == spec_frame_arena_text(),
    {
        FRAME_ARENA_SOURCE.to_owned()
    }
}

} // verus!
